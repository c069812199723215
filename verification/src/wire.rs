//! The wire format of a batch: fields with a number, each a varint or a
//! length-delimited payload, written one after the other.

use vstd::prelude::*;
use vstd::utf8::encode_utf8;

verus! {

/// The largest field number that the format admits.
pub const MAX_FIELD_NUMBER: u32 = 0x1fff_ffff;

/// The largest number of bytes that an encoded message may have.
pub const MAX_MESSAGE_BYTES: usize = 0x7fff_ffff;

/// A value could not be written in the wire format.
#[derive(Clone, Copy, Debug, PartialEq, Eq)]
pub enum EncodingError {
    /// The encoded message would exceed [`MAX_MESSAGE_BYTES`].
    TooLarge,
}

/// The base-128 encoding of `value`: seven bits to a byte, the low bits
/// first, the top bit of every byte but the last set.
pub open spec fn varint(value: nat) -> Seq<u8>
    decreases value,
{
    if value < 128 {
        seq![value as u8]
    } else {
        seq![(value % 128 + 128) as u8] + varint(value / 128)
    }
}

/// The bytes of a varint field: its key, then its value.
pub open spec fn varint_field(number: nat, value: nat) -> Seq<u8> {
    varint(number * 8) + varint(value)
}

/// The bytes of a length-delimited field: its key, the length of the
/// payload, then the payload.
pub open spec fn bytes_field(number: nat, payload: Seq<u8>) -> Seq<u8> {
    varint(number * 8 + 2) + varint(payload.len()) + payload
}

/// One field of a message.
pub enum WireField {
    Varint { number: nat, value: nat },
    Bytes { number: nat, payload: Seq<u8> },
}

impl WireField {
    /// The bytes of this field.
    pub open spec fn encoding(self) -> Seq<u8> {
        match self {
            WireField::Varint { number, value } => varint_field(number, value),
            WireField::Bytes { number, payload } => bytes_field(number, payload),
        }
    }
}

/// The bytes of a message made of `fields`, in order.
pub open spec fn serialize(fields: Seq<WireField>) -> Seq<u8>
    decreases fields.len(),
{
    if fields.len() == 0 {
        Seq::empty()
    } else {
        serialize(fields.drop_last()) + fields.last().encoding()
    }
}

/// A number-valued field, which is left out when the value is 0.
pub open spec fn scalar(number: nat, value: nat) -> Seq<WireField> {
    if value == 0 {
        Seq::empty()
    } else {
        seq![WireField::Varint { number, value }]
    }
}

/// A field that always appears, whatever its payload.
pub open spec fn item(number: nat, payload: Seq<u8>) -> Seq<WireField> {
    seq![WireField::Bytes { number, payload }]
}

/// A bytes-valued field, which is left out when the payload is empty.
pub open spec fn blob(number: nat, payload: Seq<u8>) -> Seq<WireField> {
    if payload.len() == 0 {
        Seq::empty()
    } else {
        item(number, payload)
    }
}

/// A text-valued field, which is left out when the text is empty.
pub open spec fn text(number: nat, chars: Seq<char>) -> Seq<WireField> {
    blob(number, encode_utf8(chars))
}

/// A repeated field: one occurrence for each payload, in order.
pub open spec fn repeated(number: nat, payloads: Seq<Seq<u8>>) -> Seq<WireField> {
    Seq::new(payloads.len(), |i: int| WireField::Bytes { number, payload: payloads[i] })
}

/// The UTF-8 bytes of each text of `items`.
pub open spec fn utf8_each(items: Seq<Seq<char>>) -> Seq<Seq<u8>> {
    Seq::new(items.len(), |i: int| encode_utf8(items[i]))
}

/// A repeated text field: one occurrence for each text, in order.
pub open spec fn texts(number: nat, items: Seq<Seq<char>>) -> Seq<WireField> {
    repeated(number, utf8_each(items))
}

/// A message made of one field is that field's bytes.
pub proof fn lemma_serialize_one(field: WireField)
    ensures
        serialize(seq![field]) == field.encoding(),
{
    assert(serialize(seq![field].drop_last()) =~= Seq::<u8>::empty());
}

/// Appending a field to a message appends its bytes.
pub proof fn lemma_serialize_push(fields: Seq<WireField>, field: WireField)
    ensures
        serialize(fields.push(field)) == serialize(fields) + field.encoding(),
{
    assert(fields.push(field).drop_last() =~= fields);
}

/// The bytes of two field lists joined are the bytes of the first followed
/// by the bytes of the second.
pub proof fn lemma_serialize_concat(first: Seq<WireField>, second: Seq<WireField>)
    ensures
        serialize(first + second) == serialize(first) + serialize(second),
    decreases second.len(),
{
    if second.len() > 0 {
        lemma_serialize_concat(first, second.drop_last());
        assert((first + second).drop_last() =~= first + second.drop_last());
    }
}

/// A message is at least as long as each of its fields.
pub proof fn lemma_serialize_covers(fields: Seq<WireField>, index: int)
    requires
        0 <= index < fields.len(),
    ensures
        serialize(fields).len() >= fields[index].encoding().len(),
    decreases fields.len(),
{
    if index < fields.len() - 1 {
        lemma_serialize_covers(fields.drop_last(), index);
    }
}

/// A message with a repeated field is longer than each payload of it.
pub proof fn lemma_repeated_covers(number: nat, payloads: Seq<Seq<u8>>, index: int)
    requires
        0 <= index < payloads.len(),
    ensures
        serialize(repeated(number, payloads)).len() > payloads[index].len(),
{
    lemma_serialize_covers(repeated(number, payloads), index);
}

/// A varint of a 64-bit value has at most ten bytes.
pub proof fn lemma_varint_short(value: nat)
    requires
        value <= u64::MAX,
    ensures
        1 <= varint(value).len() <= 10,
{
    reveal_with_fuel(varint, 11);
}

/// A number-valued field with a small number takes at most eleven bytes.
pub proof fn lemma_scalar_short(number: nat, value: nat)
    requires
        number < 16,
        value <= u64::MAX,
    ensures
        serialize(scalar(number, value)).len() <= 11,
{
    if value != 0 {
        lemma_serialize_one(WireField::Varint { number, value });
        lemma_varint_short(value);
    }
}

/// Appends a varint field with `protobuf::CodedOutputStream::write_uint64`.
/// Trusted: the stream appends to `out` the key of field `number` with wire
/// type 0 and then `value`, both as varints, and writing to a vector does not
/// fail.
#[verifier::external_body]
fn write_uint64_field(out: &mut Vec<u8>, number: u32, value: u64)
    requires
        1 <= number <= MAX_FIELD_NUMBER,
    ensures
        final(out)@ == old(out)@ + varint_field(number as nat, value as nat),
{
    let mut stream = protobuf::CodedOutputStream::vec(out);
    stream.write_uint64(number, value).unwrap();
    stream.flush().unwrap();
}

/// Appends a length-delimited field with
/// `protobuf::CodedOutputStream::write_bytes`. Trusted: the stream appends to
/// `out` the key of field `number` with wire type 2 and the length of
/// `payload`, both as varints, and then `payload`, and writing to a vector
/// does not fail.
#[verifier::external_body]
fn write_bytes_field(out: &mut Vec<u8>, number: u32, payload: &[u8])
    requires
        1 <= number <= MAX_FIELD_NUMBER,
        payload@.len() <= u32::MAX,
    ensures
        final(out)@ == old(out)@ + bytes_field(number as nat, payload@),
{
    let mut stream = protobuf::CodedOutputStream::vec(out);
    stream.write_bytes(number, payload).unwrap();
    stream.flush().unwrap();
}

/// Appends the number-valued field `number`, unless `value` is 0.
pub fn put_scalar(out: &mut Vec<u8>, number: u32, value: u64)
    requires
        1 <= number <= MAX_FIELD_NUMBER,
    ensures
        final(out)@ == old(out)@ + serialize(scalar(number as nat, value as nat)),
{
    if value != 0 {
        write_uint64_field(out, number, value);
        proof {
            lemma_serialize_one(WireField::Varint { number: number as nat, value: value as nat });
        }
    }
}

/// Appends the field `number` with `payload`, empty or not. Writes nothing
/// and answers `false` when the payload is longer than a message may be.
pub fn put_item(out: &mut Vec<u8>, number: u32, payload: &[u8]) -> (fits: bool)
    requires
        1 <= number <= MAX_FIELD_NUMBER,
    ensures
        fits == (payload@.len() <= MAX_MESSAGE_BYTES),
        fits ==> final(out)@ == old(out)@ + serialize(item(number as nat, payload@)),
        !fits ==> final(out)@ == old(out)@,
        !fits ==> serialize(item(number as nat, payload@)).len() > MAX_MESSAGE_BYTES,
{
    proof {
        lemma_serialize_one(WireField::Bytes { number: number as nat, payload: payload@ });
    }
    if payload.len() > MAX_MESSAGE_BYTES {
        return false;
    }
    write_bytes_field(out, number, payload);
    true
}

/// Appends the bytes-valued field `number`, unless `payload` is empty.
/// Writes nothing and answers `false` when the payload is longer than a
/// message may be.
pub fn put_blob(out: &mut Vec<u8>, number: u32, payload: &[u8]) -> (fits: bool)
    requires
        1 <= number <= MAX_FIELD_NUMBER,
    ensures
        fits == (payload@.len() <= MAX_MESSAGE_BYTES),
        fits ==> final(out)@ == old(out)@ + serialize(blob(number as nat, payload@)),
        !fits ==> final(out)@ == old(out)@,
        !fits ==> serialize(blob(number as nat, payload@)).len() > MAX_MESSAGE_BYTES,
{
    if payload.len() == 0 {
        true
    } else {
        put_item(out, number, payload)
    }
}

/// Appends the text-valued field `number`, unless `value` is empty. Writes
/// nothing and answers `false` when the text is longer than a message may
/// be.
pub fn put_text(out: &mut Vec<u8>, number: u32, value: &str) -> (fits: bool)
    requires
        1 <= number <= MAX_FIELD_NUMBER,
    ensures
        fits == (encode_utf8(value@).len() <= MAX_MESSAGE_BYTES),
        fits ==> final(out)@ == old(out)@ + serialize(text(number as nat, value@)),
        !fits ==> final(out)@ == old(out)@,
        !fits ==> serialize(text(number as nat, value@)).len() > MAX_MESSAGE_BYTES,
{
    put_blob(out, number, value.as_bytes())
}

/// Appends the repeated text field `number`, one occurrence for each text of
/// `items`. Writes nothing and answers `false` when a text is longer than a
/// message may be.
pub fn put_texts(out: &mut Vec<u8>, number: u32, items: &Vec<String>) -> (fits: bool)
    requires
        1 <= number <= MAX_FIELD_NUMBER,
    ensures
        fits == (forall|i: int|
            0 <= i < items@.len() ==> encode_utf8(#[trigger] items@[i]@).len()
                <= MAX_MESSAGE_BYTES),
        fits ==> final(out)@ == old(out)@ + serialize(texts(number as nat, items.deep_view())),
        !fits ==> final(out)@ == old(out)@,
        !fits ==> serialize(texts(number as nat, items.deep_view())).len() > MAX_MESSAGE_BYTES,
{
    let ghost all = utf8_each(items.deep_view());
    let start: usize = out.len();
    let mut i: usize = 0;
    while i < items.len()
        invariant
            1 <= number <= MAX_FIELD_NUMBER,
            i <= items@.len(),
            all == utf8_each(items.deep_view()),
            start == old(out)@.len(),
            out@ == old(out)@ + serialize(repeated(number as nat, all.take(i as int))),
            forall|j: int|
                0 <= j < i ==> encode_utf8(#[trigger] items@[j]@).len() <= MAX_MESSAGE_BYTES,
        decreases items@.len() - i,
    {
        let fits = put_item(out, number, items[i].as_str().as_bytes());
        if !fits {
            proof {
                lemma_repeated_covers(number as nat, all, i as int);
            }
            out.truncate(start);
            return false;
        }
        proof {
            let done = repeated(number as nat, all.take(i as int));
            let field = WireField::Bytes { number: number as nat, payload: all[i as int] };
            assert(repeated(number as nat, all.take(i + 1)) =~= done.push(field));
            lemma_serialize_push(done, field);
            lemma_serialize_one(field);
        }
        i += 1;
    }
    proof {
        assert(all.take(i as int) =~= all);
    }
    true
}

} // verus!
