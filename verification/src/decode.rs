//! Reading the wire format: what a reader finds in the bytes of a message,
//! and the law that it finds what was written.

use crate::encode::header_field;
use crate::trace::{
    AccountChangeView, BalanceChangeView, BatchView, InstructionView, MessageHeader,
    TransactionView,
};
use crate::wire::{
    blob, item, lemma_serialize_concat, lemma_serialize_one, repeated, scalar, serialize, text,
    texts, utf8_each, varint, WireField,
};
use vstd::prelude::*;
use vstd::utf8::{
    decode_utf8, encode_utf8, encode_utf8_decode_utf8, encode_utf8_valid_utf8, valid_utf8,
};

verus! {

/// The number that a varint at the start of `bytes` stands for, and how many
/// bytes it takes; `None` where the bytes end within it.
pub open spec fn parse_varint(bytes: Seq<u8>) -> Option<(nat, nat)>
    decreases bytes.len(),
{
    if bytes.len() == 0 {
        None
    } else if bytes[0] < 128 {
        Some((bytes[0] as nat, 1nat))
    } else {
        match parse_varint(bytes.skip(1)) {
            Some((high, used)) => Some((((bytes[0] - 128) + 128 * high) as nat, used + 1)),
            None => None,
        }
    }
}

/// The fields that `bytes` hold, in order; `None` where the bytes are not a
/// sequence of varint and length-delimited fields.
pub open spec fn parse_fields(bytes: Seq<u8>) -> Option<Seq<WireField>>
    decreases bytes.len(),
{
    if bytes.len() == 0 {
        Some(Seq::empty())
    } else {
        match parse_varint(bytes) {
            None => None,
            Some((key, key_len)) => {
                if key_len == 0 || key_len > bytes.len() {
                    None
                } else {
                    let body = bytes.skip(key_len as int);
                    match parse_varint(body) {
                        None => None,
                        Some((value, value_len)) => {
                            if value_len > body.len() {
                                None
                            } else if key % 8 == 0 {
                                match parse_fields(body.skip(value_len as int)) {
                                    Some(rest) => Some(
                                        seq![WireField::Varint { number: key / 8, value }] + rest,
                                    ),
                                    None => None,
                                }
                            } else if key % 8 == 2 {
                                if value_len + value > body.len() {
                                    None
                                } else {
                                    match parse_fields(body.skip((value_len + value) as int)) {
                                        Some(rest) => Some(
                                            seq![
                                                WireField::Bytes {
                                                    number: key / 8,
                                                    payload: body.subrange(
                                                        value_len as int,
                                                        (value_len + value) as int,
                                                    ),
                                                },
                                            ] + rest,
                                        ),
                                        None => None,
                                    }
                                }
                            } else {
                                None
                            }
                        },
                    }
                }
            },
        }
    }
}

/// A kind of message that a reader can build from fields.
pub trait WireRead: Sized {
    /// The message before any field was read: every part empty or 0.
    spec fn blank() -> Self;

    /// The message after one more field was read: a field with a number of
    /// its own sets or extends its part, any other is passed over; `None`
    /// where the field does not hold what its part takes.
    spec fn merge(self, field: WireField) -> Option<Self>;
}

/// The message after `fields` were read in order, starting from `start`.
pub open spec fn fold_fields<T: WireRead>(fields: Seq<WireField>, start: T) -> Option<T>
    decreases fields.len(),
{
    if fields.len() == 0 {
        Some(start)
    } else {
        match fold_fields(fields.drop_last(), start) {
            Some(so_far) => so_far.merge(fields.last()),
            None => None,
        }
    }
}

/// The message that a reader finds in `bytes`.
pub open spec fn decode<T: WireRead>(bytes: Seq<u8>) -> Option<T> {
    match parse_fields(bytes) {
        Some(fields) => fold_fields(fields, T::blank()),
        None => None,
    }
}

/// The text that a reader finds in a payload.
pub open spec fn read_text(payload: Seq<u8>) -> Option<Seq<char>> {
    if valid_utf8(payload) {
        Some(decode_utf8(payload))
    } else {
        None
    }
}

impl WireRead for BalanceChangeView {
    open spec fn blank() -> BalanceChangeView {
        BalanceChangeView { pubkey: Seq::empty(), prev_lamports: 0, new_lamports: 0 }
    }

    open spec fn merge(self, field: WireField) -> Option<BalanceChangeView> {
        match field {
            WireField::Bytes { number, payload } => if number == 1 {
                match read_text(payload) {
                    Some(pubkey) => Some(BalanceChangeView { pubkey, ..self }),
                    None => None,
                }
            } else {
                Some(self)
            },
            WireField::Varint { number, value } => if value > u64::MAX {
                None
            } else if number == 2 {
                Some(BalanceChangeView { prev_lamports: value as u64, ..self })
            } else if number == 3 {
                Some(BalanceChangeView { new_lamports: value as u64, ..self })
            } else {
                Some(self)
            },
        }
    }
}

impl WireRead for AccountChangeView {
    open spec fn blank() -> AccountChangeView {
        AccountChangeView {
            pubkey: Seq::empty(),
            prev_data: Seq::empty(),
            new_data: Seq::empty(),
            new_data_length: 0,
        }
    }

    open spec fn merge(self, field: WireField) -> Option<AccountChangeView> {
        match field {
            WireField::Bytes { number, payload } => if number == 1 {
                match read_text(payload) {
                    Some(pubkey) => Some(AccountChangeView { pubkey, ..self }),
                    None => None,
                }
            } else if number == 2 {
                Some(AccountChangeView { prev_data: payload, ..self })
            } else if number == 3 {
                Some(AccountChangeView { new_data: payload, ..self })
            } else {
                Some(self)
            },
            WireField::Varint { number, value } => if value > u64::MAX {
                None
            } else if number == 4 {
                Some(AccountChangeView { new_data_length: value as u64, ..self })
            } else {
                Some(self)
            },
        }
    }
}

impl WireRead for InstructionView {
    open spec fn blank() -> InstructionView {
        InstructionView {
            program_id: Seq::empty(),
            account_keys: Seq::empty(),
            data: Seq::empty(),
            ordinal: 0,
            parent_ordinal: 0,
            depth: 0,
            balance_changes: Seq::empty(),
            account_changes: Seq::empty(),
        }
    }

    open spec fn merge(self, field: WireField) -> Option<InstructionView> {
        match field {
            WireField::Bytes { number, payload } => if number == 3 {
                match read_text(payload) {
                    Some(program_id) => Some(InstructionView { program_id, ..self }),
                    None => None,
                }
            } else if number == 4 {
                match read_text(payload) {
                    Some(key) => Some(
                        InstructionView { account_keys: self.account_keys.push(key), ..self },
                    ),
                    None => None,
                }
            } else if number == 5 {
                Some(InstructionView { data: payload, ..self })
            } else if number == 9 {
                match decode::<BalanceChangeView>(payload) {
                    Some(change) => Some(
                        InstructionView {
                            balance_changes: self.balance_changes.push(change),
                            ..self
                        },
                    ),
                    None => None,
                }
            } else if number == 10 {
                match decode::<AccountChangeView>(payload) {
                    Some(change) => Some(
                        InstructionView {
                            account_changes: self.account_changes.push(change),
                            ..self
                        },
                    ),
                    None => None,
                }
            } else {
                Some(self)
            },
            WireField::Varint { number, value } => if value > u32::MAX {
                None
            } else if number == 6 {
                Some(InstructionView { ordinal: value as u32, ..self })
            } else if number == 7 {
                Some(InstructionView { parent_ordinal: value as u32, ..self })
            } else if number == 8 {
                Some(InstructionView { depth: value as u32, ..self })
            } else {
                Some(self)
            },
        }
    }
}

impl WireRead for MessageHeader {
    open spec fn blank() -> MessageHeader {
        MessageHeader {
            num_required_signatures: 0,
            num_readonly_signed_accounts: 0,
            num_readonly_unsigned_accounts: 0,
        }
    }

    open spec fn merge(self, field: WireField) -> Option<MessageHeader> {
        match field {
            WireField::Bytes { number, payload } => Some(self),
            WireField::Varint { number, value } => if value > u32::MAX {
                None
            } else if number == 1 {
                Some(MessageHeader { num_required_signatures: value as u32, ..self })
            } else if number == 2 {
                Some(MessageHeader { num_readonly_signed_accounts: value as u32, ..self })
            } else if number == 3 {
                Some(MessageHeader { num_readonly_unsigned_accounts: value as u32, ..self })
            } else {
                Some(self)
            },
        }
    }
}

impl WireRead for TransactionView {
    open spec fn blank() -> TransactionView {
        TransactionView::empty()
    }

    open spec fn merge(self, field: WireField) -> Option<TransactionView> {
        match field {
            WireField::Bytes { number, payload } => if number == 1 {
                match read_text(payload) {
                    Some(id) => Some(TransactionView { id, ..self }),
                    None => None,
                }
            } else if number == 3 {
                match read_text(payload) {
                    Some(signature) => Some(
                        TransactionView {
                            additional_signatures: self.additional_signatures.push(signature),
                            ..self
                        },
                    ),
                    None => None,
                }
            } else if number == 4 {
                match decode::<MessageHeader>(payload) {
                    Some(header) => Some(TransactionView { header: Some(header), ..self }),
                    None => None,
                }
            } else if number == 5 {
                match read_text(payload) {
                    Some(key) => Some(
                        TransactionView { account_keys: self.account_keys.push(key), ..self },
                    ),
                    None => None,
                }
            } else if number == 6 {
                match read_text(payload) {
                    Some(recent_blockhash) => Some(TransactionView { recent_blockhash, ..self }),
                    None => None,
                }
            } else if number == 7 {
                match read_text(payload) {
                    Some(message) => Some(
                        TransactionView { log_messages: self.log_messages.push(message), ..self },
                    ),
                    None => None,
                }
            } else if number == 8 {
                match decode::<InstructionView>(payload) {
                    Some(frame) => Some(
                        TransactionView { instructions: self.instructions.push(frame), ..self },
                    ),
                    None => None,
                }
            } else {
                Some(self)
            },
            WireField::Varint { number, value } => Some(self),
        }
    }
}

impl WireRead for BatchView {
    open spec fn blank() -> BatchView {
        BatchView { batch_number: 0, transactions: Seq::empty() }
    }

    open spec fn merge(self, field: WireField) -> Option<BatchView> {
        match field {
            WireField::Bytes { number, payload } => if number == 1 {
                match decode::<TransactionView>(payload) {
                    Some(trace) => Some(
                        BatchView { transactions: self.transactions.push(trace), ..self },
                    ),
                    None => None,
                }
            } else {
                Some(self)
            },
            WireField::Varint { number, value } => if value > u64::MAX {
                None
            } else if number == 2 {
                Some(BatchView { batch_number: value as u64, ..self })
            } else {
                Some(self)
            },
        }
    }
}

/// A reader finds the number that a varint was written for, whatever
/// follows it.
pub proof fn lemma_parse_varint(value: nat, tail: Seq<u8>)
    ensures
        parse_varint(varint(value) + tail) == Some((value, varint(value).len())),
    decreases value,
{
    let bytes = varint(value) + tail;
    if value >= 128 {
        lemma_parse_varint(value / 128, tail);
        assert(bytes.skip(1) =~= varint(value / 128) + tail);
    }
}

/// A reader finds a field that was written, and goes on behind it.
pub proof fn lemma_parse_field(field: WireField, tail: Seq<u8>)
    ensures
        parse_fields(field.encoding() + tail) == match parse_fields(tail) {
            Some(rest) => Some(seq![field] + rest),
            None => None,
        },
{
    let bytes = field.encoding() + tail;
    match field {
        WireField::Varint { number, value } => {
            let key = number * 8;
            let key_len = varint(key).len();
            let value_len = varint(value).len();
            assert(bytes =~= varint(key) + (varint(value) + tail));
            lemma_parse_varint(key, varint(value) + tail);
            lemma_varint_not_empty(key);
            lemma_varint_not_empty(value);
            let body = bytes.skip(key_len as int);
            assert(body =~= varint(value) + tail);
            lemma_parse_varint(value, tail);
            assert(body.skip(value_len as int) =~= tail);
            assert(key % 8 == 0 && key / 8 == number);
        },
        WireField::Bytes { number, payload } => {
            let key = number * 8 + 2;
            let key_len = varint(key).len();
            let size = payload.len();
            let size_len = varint(size).len();
            assert(bytes =~= varint(key) + (varint(size) + (payload + tail)));
            lemma_parse_varint(key, varint(size) + (payload + tail));
            lemma_varint_not_empty(key);
            let body = bytes.skip(key_len as int);
            assert(body =~= varint(size) + (payload + tail));
            lemma_parse_varint(size, payload + tail);
            assert(body.skip((size_len + size) as int) =~= tail);
            assert(body.subrange(size_len as int, (size_len + size) as int) =~= payload);
            assert(key % 8 == 2 && key / 8 == number);
        },
    }
}

/// A varint has at least one byte.
pub proof fn lemma_varint_not_empty(value: nat)
    ensures
        varint(value).len() >= 1,
{
}

/// A reader finds the fields that a message was written from.
pub proof fn lemma_parse_serialize(fields: Seq<WireField>)
    ensures
        parse_fields(serialize(fields)) == Some(fields),
    decreases fields.len(),
{
    if fields.len() > 0 {
        let first = fields[0];
        let others = fields.skip(1);
        assert(fields =~= seq![first] + others);
        lemma_serialize_concat(seq![first], others);
        lemma_serialize_one(first);
        lemma_parse_serialize(others);
        lemma_parse_field(first, serialize(others));
    }
}

/// Reading one field is merging it.
pub proof fn lemma_fold_one<T: WireRead>(field: WireField, start: T)
    ensures
        fold_fields(seq![field], start) == start.merge(field),
{
    assert(fold_fields(seq![field].drop_last(), start) == Some(start));
}

/// Reading two lists of fields joined is reading the first, then the second
/// from there.
pub proof fn lemma_fold_concat<T: WireRead>(first: Seq<WireField>, second: Seq<WireField>, start: T)
    ensures
        fold_fields(first + second, start) == match fold_fields(first, start) {
            Some(middle) => fold_fields(second, middle),
            None => None,
        },
    decreases second.len(),
{
    if second.len() > 0 {
        lemma_fold_concat(first, second.drop_last(), start);
        assert((first + second).drop_last() =~= first + second.drop_last());
    }
}

/// Reading a repeated field goes through `stages`, one for each payload.
pub proof fn lemma_fold_repeated<T: WireRead>(
    number: nat,
    payloads: Seq<Seq<u8>>,
    stages: spec_fn(int) -> T,
)
    requires
        forall|i: int|
            0 <= i < payloads.len() ==> (#[trigger] stages(i)).merge(
                WireField::Bytes { number, payload: payloads[i] },
            ) == Some(stages(i + 1)),
    ensures
        fold_fields(repeated(number, payloads), stages(0)) == Some(
            stages(payloads.len() as int),
        ),
    decreases payloads.len(),
{
    if payloads.len() > 0 {
        let shorter = payloads.drop_last();
        lemma_fold_repeated(number, shorter, stages);
        assert(repeated(number, payloads).drop_last() =~= repeated(number, shorter));
    }
}

/// A reader finds the text that was written.
pub proof fn lemma_read_text(chars: Seq<char>)
    ensures
        read_text(encode_utf8(chars)) == Some(chars),
{
    encode_utf8_valid_utf8(chars);
    encode_utf8_decode_utf8(chars);
}

/// Reading a number-valued field sets its part, and a field left out leaves
/// the part as it was.
pub proof fn lemma_fold_scalar<T: WireRead>(number: nat, value: nat, start: T)
    ensures
        fold_fields(scalar(number, value), start) == if value == 0 {
            Some(start)
        } else {
            start.merge(WireField::Varint { number, value })
        },
{
    if value != 0 {
        lemma_fold_one(WireField::Varint { number, value }, start);
    }
}

/// Reading a field that always appears merges it.
pub proof fn lemma_fold_item<T: WireRead>(number: nat, payload: Seq<u8>, start: T)
    ensures
        fold_fields(item(number, payload), start) == start.merge(
            WireField::Bytes { number, payload },
        ),
{
    lemma_fold_one(WireField::Bytes { number, payload }, start);
}

/// Reading a bytes-valued field sets its part, and a field left out leaves
/// the part as it was.
pub proof fn lemma_fold_blob<T: WireRead>(number: nat, payload: Seq<u8>, start: T)
    ensures
        fold_fields(blob(number, payload), start) == if payload.len() == 0 {
            Some(start)
        } else {
            start.merge(WireField::Bytes { number, payload })
        },
{
    if payload.len() != 0 {
        lemma_fold_item(number, payload, start);
    }
}

/// Only the empty text is written as no bytes.
pub proof fn lemma_empty_text(chars: Seq<char>)
    ensures
        encode_utf8(chars).len() == 0 ==> chars =~= Seq::<char>::empty(),
{
}

/// A reader finds the balance change that was written.
pub proof fn lemma_balance_change_round_trip(change: BalanceChangeView)
    ensures
        decode::<BalanceChangeView>(change.encoding()) == Some(change),
{
    let a = text(1, change.pubkey);
    let b = scalar(2, change.prev_lamports as nat);
    let c = scalar(3, change.new_lamports as nat);
    let s0 = BalanceChangeView::blank();
    let s1 = BalanceChangeView { pubkey: change.pubkey, ..s0 };
    let s2 = BalanceChangeView { prev_lamports: change.prev_lamports, ..s1 };
    lemma_parse_serialize(change.fields());
    lemma_read_text(change.pubkey);
    lemma_fold_blob(1, encode_utf8(change.pubkey), s0);
    lemma_fold_scalar(2, change.prev_lamports as nat, s1);
    lemma_fold_scalar(3, change.new_lamports as nat, s2);
    lemma_fold_concat(a, b, s0);
    lemma_fold_concat(a + b, c, s0);
}

/// A reader finds the account change that was written.
pub proof fn lemma_account_change_round_trip(change: AccountChangeView)
    ensures
        decode::<AccountChangeView>(change.encoding()) == Some(change),
{
    let a = text(1, change.pubkey);
    let b = blob(2, change.prev_data);
    let c = blob(3, change.new_data);
    let d = scalar(4, change.new_data_length as nat);
    let s0 = AccountChangeView::blank();
    let s1 = AccountChangeView { pubkey: change.pubkey, ..s0 };
    let s2 = AccountChangeView { prev_data: change.prev_data, ..s1 };
    let s3 = AccountChangeView { new_data: change.new_data, ..s2 };
    lemma_parse_serialize(change.fields());
    lemma_read_text(change.pubkey);
    lemma_fold_blob(1, encode_utf8(change.pubkey), s0);
    lemma_fold_blob(2, change.prev_data, s1);
    assert(fold_fields(b, s1) == Some(s2));
    lemma_fold_blob(3, change.new_data, s2);
    assert(fold_fields(c, s2) == Some(s3));
    lemma_fold_scalar(4, change.new_data_length as nat, s3);
    lemma_fold_concat(a, b, s0);
    lemma_fold_concat(a + b, c, s0);
    lemma_fold_concat(a + b + c, d, s0);
}

/// A reader finds the header that was written.
pub proof fn lemma_header_round_trip(header: MessageHeader)
    ensures
        decode::<MessageHeader>(header.encoding()) == Some(header),
{
    let a = scalar(1, header.num_required_signatures as nat);
    let b = scalar(2, header.num_readonly_signed_accounts as nat);
    let c = scalar(3, header.num_readonly_unsigned_accounts as nat);
    let s0 = MessageHeader::blank();
    let s1 = MessageHeader { num_required_signatures: header.num_required_signatures, ..s0 };
    let s2 = MessageHeader {
        num_readonly_signed_accounts: header.num_readonly_signed_accounts,
        ..s1
    };
    lemma_parse_serialize(header.fields());
    lemma_fold_scalar(1, header.num_required_signatures as nat, s0);
    lemma_fold_scalar(2, header.num_readonly_signed_accounts as nat, s1);
    lemma_fold_scalar(3, header.num_readonly_unsigned_accounts as nat, s2);
    lemma_fold_concat(a, b, s0);
    lemma_fold_concat(a + b, c, s0);
}

/// Reading the accounts of a frame appends them, in order.
pub proof fn lemma_fold_frame_account_keys(start: InstructionView, keys: Seq<Seq<char>>)
    requires
        start.account_keys.len() == 0,
    ensures
        fold_fields(texts(4, keys), start) == Some(InstructionView { account_keys: keys, ..start }),
{
    let stages = |k: int| InstructionView { account_keys: keys.take(k), ..start };
    let payloads = utf8_each(keys);
    assert forall|i: int| 0 <= i < payloads.len() implies (#[trigger] stages(i)).merge(
        WireField::Bytes { number: 4, payload: payloads[i] },
    ) == Some(stages(i + 1)) by {
        lemma_read_text(keys[i]);
    }
    lemma_fold_repeated(4, payloads, stages);
    assert(stages(0) =~~= start);
}

/// Reading the balance changes of a frame appends them, in order.
pub proof fn lemma_fold_frame_balance_changes(
    start: InstructionView,
    changes: Seq<BalanceChangeView>,
)
    requires
        start.balance_changes.len() == 0,
    ensures
        fold_fields(
            repeated(9, changes.map_values(|c: BalanceChangeView| c.encoding())),
            start,
        ) == Some(InstructionView { balance_changes: changes, ..start }),
{
    let stages = |k: int| InstructionView { balance_changes: changes.take(k), ..start };
    let payloads = changes.map_values(|c: BalanceChangeView| c.encoding());
    assert forall|i: int| 0 <= i < payloads.len() implies (#[trigger] stages(i)).merge(
        WireField::Bytes { number: 9, payload: payloads[i] },
    ) == Some(stages(i + 1)) by {
        lemma_balance_change_round_trip(changes[i]);
    }
    lemma_fold_repeated(9, payloads, stages);
    assert(stages(0) =~~= start);
}

/// Reading the account changes of a frame appends them, in order.
pub proof fn lemma_fold_frame_account_changes(
    start: InstructionView,
    changes: Seq<AccountChangeView>,
)
    requires
        start.account_changes.len() == 0,
    ensures
        fold_fields(
            repeated(10, changes.map_values(|c: AccountChangeView| c.encoding())),
            start,
        ) == Some(InstructionView { account_changes: changes, ..start }),
{
    let stages = |k: int| InstructionView { account_changes: changes.take(k), ..start };
    let payloads = changes.map_values(|c: AccountChangeView| c.encoding());
    assert forall|i: int| 0 <= i < payloads.len() implies (#[trigger] stages(i)).merge(
        WireField::Bytes { number: 10, payload: payloads[i] },
    ) == Some(stages(i + 1)) by {
        lemma_account_change_round_trip(changes[i]);
    }
    lemma_fold_repeated(10, payloads, stages);
    assert(stages(0) =~~= start);
}

/// A reader finds the frame that was written.
pub proof fn lemma_instruction_round_trip(frame: InstructionView)
    ensures
        decode::<InstructionView>(frame.encoding()) == Some(frame),
{
    let a = text(3, frame.program_id);
    let b = texts(4, frame.account_keys);
    let c = blob(5, frame.data);
    let d = scalar(6, frame.ordinal as nat);
    let e = scalar(7, frame.parent_ordinal as nat);
    let f = scalar(8, frame.depth as nat);
    let g = repeated(9, frame.balance_payloads());
    let h = repeated(10, frame.account_payloads());
    let s0 = InstructionView::blank();
    let s1 = InstructionView { program_id: frame.program_id, ..s0 };
    let s2 = InstructionView { account_keys: frame.account_keys, ..s1 };
    let s3 = InstructionView { data: frame.data, ..s2 };
    let s4 = InstructionView { ordinal: frame.ordinal, ..s3 };
    let s5 = InstructionView { parent_ordinal: frame.parent_ordinal, ..s4 };
    let s6 = InstructionView { depth: frame.depth, ..s5 };
    let s7 = InstructionView { balance_changes: frame.balance_changes, ..s6 };
    lemma_parse_serialize(frame.fields());
    assert(fold_fields(a, s0) == Some(s1)) by {
        lemma_read_text(frame.program_id);
        lemma_fold_blob(3, encode_utf8(frame.program_id), s0);
    }
    assert(fold_fields(b, s1) == Some(s2)) by {
        lemma_fold_frame_account_keys(s1, frame.account_keys);
    }
    assert(fold_fields(c, s2) == Some(s3)) by {
        lemma_fold_blob(5, frame.data, s2);
    }
    assert(fold_fields(d, s3) == Some(s4)) by {
        lemma_fold_scalar(6, frame.ordinal as nat, s3);
    }
    assert(fold_fields(e, s4) == Some(s5)) by {
        lemma_fold_scalar(7, frame.parent_ordinal as nat, s4);
    }
    assert(fold_fields(f, s5) == Some(s6)) by {
        lemma_fold_scalar(8, frame.depth as nat, s5);
    }
    assert(fold_fields(g, s6) == Some(s7)) by {
        lemma_fold_frame_balance_changes(s6, frame.balance_changes);
    }
    assert(fold_fields(h, s7) == Some(frame)) by {
        lemma_fold_frame_account_changes(s7, frame.account_changes);
    }
    lemma_fold_concat(a, b, s0);
    lemma_fold_concat(a + b, c, s0);
    lemma_fold_concat(a + b + c, d, s0);
    lemma_fold_concat(a + b + c + d, e, s0);
    lemma_fold_concat(a + b + c + d + e, f, s0);
    lemma_fold_concat(a + b + c + d + e + f, g, s0);
    lemma_fold_concat(a + b + c + d + e + f + g, h, s0);
}

/// Reading the further signatures of a transaction appends them, in order.
pub proof fn lemma_fold_signatures(start: TransactionView, signatures: Seq<Seq<char>>)
    requires
        start.additional_signatures.len() == 0,
    ensures
        fold_fields(texts(3, signatures), start) == Some(
            TransactionView { additional_signatures: signatures, ..start },
        ),
{
    let stages = |k: int| TransactionView { additional_signatures: signatures.take(k), ..start };
    let payloads = utf8_each(signatures);
    assert forall|i: int| 0 <= i < payloads.len() implies (#[trigger] stages(i)).merge(
        WireField::Bytes { number: 3, payload: payloads[i] },
    ) == Some(stages(i + 1)) by {
        lemma_read_text(signatures[i]);
    }
    lemma_fold_repeated(3, payloads, stages);
    assert(stages(0) =~~= start);
}

/// Reading the account keys of a transaction appends them, in order.
pub proof fn lemma_fold_account_keys(start: TransactionView, keys: Seq<Seq<char>>)
    requires
        start.account_keys.len() == 0,
    ensures
        fold_fields(texts(5, keys), start) == Some(TransactionView { account_keys: keys, ..start }),
{
    let stages = |k: int| TransactionView { account_keys: keys.take(k), ..start };
    let payloads = utf8_each(keys);
    assert forall|i: int| 0 <= i < payloads.len() implies (#[trigger] stages(i)).merge(
        WireField::Bytes { number: 5, payload: payloads[i] },
    ) == Some(stages(i + 1)) by {
        lemma_read_text(keys[i]);
    }
    lemma_fold_repeated(5, payloads, stages);
    assert(stages(0) =~~= start);
}

/// Reading the log messages of a transaction appends them, in order.
pub proof fn lemma_fold_log_messages(start: TransactionView, messages: Seq<Seq<char>>)
    requires
        start.log_messages.len() == 0,
    ensures
        fold_fields(texts(7, messages), start) == Some(
            TransactionView { log_messages: messages, ..start },
        ),
{
    let stages = |k: int| TransactionView { log_messages: messages.take(k), ..start };
    let payloads = utf8_each(messages);
    assert forall|i: int| 0 <= i < payloads.len() implies (#[trigger] stages(i)).merge(
        WireField::Bytes { number: 7, payload: payloads[i] },
    ) == Some(stages(i + 1)) by {
        lemma_read_text(messages[i]);
    }
    lemma_fold_repeated(7, payloads, stages);
    assert(stages(0) =~~= start);
}

/// Reading the frames of a transaction appends them, in order.
pub proof fn lemma_fold_frames(start: TransactionView, frames: Seq<InstructionView>)
    requires
        start.instructions.len() == 0,
    ensures
        fold_fields(repeated(8, frames.map_values(|i: InstructionView| i.encoding())), start)
            == Some(TransactionView { instructions: frames, ..start }),
{
    let stages = |k: int| TransactionView { instructions: frames.take(k), ..start };
    let payloads = frames.map_values(|i: InstructionView| i.encoding());
    assert forall|i: int| 0 <= i < payloads.len() implies (#[trigger] stages(i)).merge(
        WireField::Bytes { number: 8, payload: payloads[i] },
    ) == Some(stages(i + 1)) by {
        lemma_instruction_round_trip(frames[i]);
    }
    lemma_fold_repeated(8, payloads, stages);
    assert(stages(0) =~~= start);
}

/// A reader finds the transaction that was written.
pub proof fn lemma_transaction_round_trip(trace: TransactionView)
    ensures
        decode::<TransactionView>(trace.encoding()) == Some(trace),
{
    let a = text(1, trace.id);
    let b = texts(3, trace.additional_signatures);
    let c = header_field(trace.header);
    let d = texts(5, trace.account_keys);
    let e = text(6, trace.recent_blockhash);
    let f = texts(7, trace.log_messages);
    let g = repeated(8, trace.instruction_payloads());
    let s0 = TransactionView::blank();
    let s1 = TransactionView { id: trace.id, ..s0 };
    let s2 = TransactionView { additional_signatures: trace.additional_signatures, ..s1 };
    let s3 = TransactionView { header: trace.header, ..s2 };
    let s4 = TransactionView { account_keys: trace.account_keys, ..s3 };
    let s5 = TransactionView { recent_blockhash: trace.recent_blockhash, ..s4 };
    let s6 = TransactionView { log_messages: trace.log_messages, ..s5 };
    lemma_parse_serialize(trace.fields());
    assert(fold_fields(a, s0) == Some(s1)) by {
        lemma_read_text(trace.id);
        lemma_empty_text(trace.id);
        lemma_fold_blob(1, encode_utf8(trace.id), s0);
    }
    assert(fold_fields(b, s1) == Some(s2)) by {
        lemma_fold_signatures(s1, trace.additional_signatures);
    }
    assert(fold_fields(c, s2) == Some(s3)) by {
        match trace.header {
            Some(header) => {
                lemma_header_round_trip(header);
                lemma_fold_item(4, header.encoding(), s2);
            },
            None => {},
        }
    }
    assert(fold_fields(d, s3) == Some(s4)) by {
        lemma_fold_account_keys(s3, trace.account_keys);
    }
    assert(fold_fields(e, s4) == Some(s5)) by {
        lemma_read_text(trace.recent_blockhash);
        lemma_empty_text(trace.recent_blockhash);
        lemma_fold_blob(6, encode_utf8(trace.recent_blockhash), s4);
    }
    assert(fold_fields(f, s5) == Some(s6)) by {
        lemma_fold_log_messages(s5, trace.log_messages);
    }
    assert(fold_fields(g, s6) == Some(trace)) by {
        lemma_fold_frames(s6, trace.instructions);
    }
    lemma_fold_concat(a, b, s0);
    lemma_fold_concat(a + b, c, s0);
    lemma_fold_concat(a + b + c, d, s0);
    lemma_fold_concat(a + b + c + d, e, s0);
    lemma_fold_concat(a + b + c + d + e, f, s0);
    lemma_fold_concat(a + b + c + d + e + f, g, s0);
}

/// Reading the transactions of a batch appends them, in order.
pub proof fn lemma_fold_transactions(start: BatchView, traces: Seq<TransactionView>)
    requires
        start.transactions.len() == 0,
    ensures
        fold_fields(repeated(1, traces.map_values(|t: TransactionView| t.encoding())), start)
            == Some(BatchView { transactions: traces, ..start }),
{
    let stages = |k: int| BatchView { transactions: traces.take(k), ..start };
    let payloads = traces.map_values(|t: TransactionView| t.encoding());
    assert forall|i: int| 0 <= i < payloads.len() implies (#[trigger] stages(i)).merge(
        WireField::Bytes { number: 1, payload: payloads[i] },
    ) == Some(stages(i + 1)) by {
        lemma_transaction_round_trip(traces[i]);
    }
    lemma_fold_repeated(1, payloads, stages);
    assert(stages(0) =~~= start);
}

/// The round trip of a batch.
///
/// A reader of the wire format finds in the bytes of a batch that batch: its
/// number, its transactions in start order, in each the frames in ordinal
/// order, and in each frame the changes in recording order, all with the
/// content that was written.
pub proof fn lemma_batch_round_trip(batch: BatchView)
    ensures
        decode::<BatchView>(batch.encoding()) == Some(batch),
{
    let a = repeated(1, batch.transaction_payloads());
    let b = scalar(2, batch.batch_number as nat);
    let s0 = BatchView::blank();
    let s1 = BatchView { transactions: batch.transactions, ..s0 };
    lemma_parse_serialize(batch.fields());
    assert(fold_fields(a, s0) == Some(s1)) by {
        lemma_fold_transactions(s0, batch.transactions);
    }
    assert(fold_fields(b, s1) == Some(batch)) by {
        lemma_fold_scalar(2, batch.batch_number as nat, s1);
    }
    lemma_fold_concat(a, b, s0);
}

/// Different batches have different bytes.
pub proof fn lemma_batch_encoding_is_injective(first: BatchView, second: BatchView)
    requires
        first.encoding() == second.encoding(),
    ensures
        first == second,
{
    lemma_batch_round_trip(first);
    lemma_batch_round_trip(second);
}

} // verus!
