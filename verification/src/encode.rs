//! The messages of a batch in the wire format: which fields each one has,
//! and the encoders that write them.

use crate::trace::{
    AccountChange, AccountChangeView, BalanceChange, BalanceChangeView, Batch, BatchView,
    Instruction, InstructionView, MessageHeader, Transaction, TransactionView,
};
use crate::wire::{
    blob, item, lemma_repeated_covers, lemma_scalar_short, lemma_serialize_concat,
    lemma_serialize_one, lemma_serialize_push, put_blob, put_item, put_scalar, put_text,
    put_texts, repeated, scalar, serialize, text, texts, EncodingError, WireField,
    MAX_FIELD_NUMBER, MAX_MESSAGE_BYTES,
};
use vstd::prelude::*;

verus! {

impl BalanceChangeView {
    /// The fields of a balance change: the account (1), the balance before
    /// (2) and after (3).
    pub open spec fn fields(self) -> Seq<WireField> {
        text(1, self.pubkey) + scalar(2, self.prev_lamports as nat) + scalar(
            3,
            self.new_lamports as nat,
        )
    }

    /// The bytes of a balance change.
    pub open spec fn encoding(self) -> Seq<u8> {
        serialize(self.fields())
    }
}

impl AccountChangeView {
    /// The fields of an account change: the account (1), the payload before
    /// (2) and after (3), and the declared length of the latter (4).
    pub open spec fn fields(self) -> Seq<WireField> {
        text(1, self.pubkey) + blob(2, self.prev_data) + blob(3, self.new_data) + scalar(
            4,
            self.new_data_length as nat,
        )
    }

    /// The bytes of an account change.
    pub open spec fn encoding(self) -> Seq<u8> {
        serialize(self.fields())
    }
}

impl InstructionView {
    /// The bytes of each balance change of this frame.
    pub open spec fn balance_payloads(self) -> Seq<Seq<u8>> {
        self.balance_changes.map_values(|c: BalanceChangeView| c.encoding())
    }

    /// The bytes of each account change of this frame.
    pub open spec fn account_payloads(self) -> Seq<Seq<u8>> {
        self.account_changes.map_values(|c: AccountChangeView| c.encoding())
    }

    /// The fields of a frame: the program (3), the accounts passed (4), the
    /// input (5), ordinal (6), parent (7) and depth (8), then the balance
    /// changes (9) and the account changes (10), each in recording order.
    pub open spec fn fields(self) -> Seq<WireField> {
        text(3, self.program_id) + texts(4, self.account_keys) + blob(5, self.data) + scalar(
            6,
            self.ordinal as nat,
        ) + scalar(7, self.parent_ordinal as nat) + scalar(8, self.depth as nat) + repeated(
            9,
            self.balance_payloads(),
        ) + repeated(10, self.account_payloads())
    }

    /// The bytes of a frame.
    pub open spec fn encoding(self) -> Seq<u8> {
        serialize(self.fields())
    }
}

impl MessageHeader {
    /// The fields of a header: its three counts (1, 2, 3).
    pub open spec fn fields(self) -> Seq<WireField> {
        scalar(1, self.num_required_signatures as nat) + scalar(
            2,
            self.num_readonly_signed_accounts as nat,
        ) + scalar(3, self.num_readonly_unsigned_accounts as nat)
    }

    /// The bytes of a header.
    pub open spec fn encoding(self) -> Seq<u8> {
        serialize(self.fields())
    }
}

/// The header field of a transaction: present, even when all counts are 0,
/// exactly when the transaction has a header.
pub open spec fn header_field(header: Option<MessageHeader>) -> Seq<WireField> {
    match header {
        Some(h) => item(4, h.encoding()),
        None => Seq::empty(),
    }
}

impl TransactionView {
    /// The bytes of each frame of this transaction.
    pub open spec fn instruction_payloads(self) -> Seq<Seq<u8>> {
        self.instructions.map_values(|i: InstructionView| i.encoding())
    }

    /// The fields of a transaction: its id (1), the further signatures (3),
    /// the header (4), the account keys (5), the recent block hash (6), the
    /// log messages (7), and the frames in the order of their ordinals (8).
    pub open spec fn fields(self) -> Seq<WireField> {
        text(1, self.id) + texts(3, self.additional_signatures) + header_field(self.header)
            + texts(5, self.account_keys) + text(6, self.recent_blockhash) + texts(
            7,
            self.log_messages,
        ) + repeated(8, self.instruction_payloads())
    }

    /// The bytes of a transaction.
    pub open spec fn encoding(self) -> Seq<u8> {
        serialize(self.fields())
    }
}

impl BatchView {
    /// The bytes of each transaction of this batch.
    pub open spec fn transaction_payloads(self) -> Seq<Seq<u8>> {
        self.transactions.map_values(|t: TransactionView| t.encoding())
    }

    /// The fields of a batch: its transactions in start order (1), then its
    /// number (2).
    pub open spec fn fields(self) -> Seq<WireField> {
        repeated(1, self.transaction_payloads()) + scalar(2, self.batch_number as nat)
    }

    /// The bytes of a batch.
    pub open spec fn encoding(self) -> Seq<u8> {
        serialize(self.fields())
    }
}

/// A value that has a place in the wire format.
pub trait WireMessage: Sized {
    /// The bytes that stand for this value.
    spec fn wire(&self) -> Seq<u8>;

    /// Writes this value in the wire format. Fails exactly when the bytes
    /// would be more than a message may have.
    fn encode(&self) -> (result: Result<Vec<u8>, EncodingError>)
        ensures
            match result {
                Ok(bytes) => bytes@ == self.wire() && bytes@.len() <= MAX_MESSAGE_BYTES,
                Err(_) => self.wire().len() > MAX_MESSAGE_BYTES,
            },
    ;
}

/// The bytes of each value of `items`.
pub open spec fn wires<T: WireMessage>(items: Seq<T>) -> Seq<Seq<u8>> {
    Seq::new(items.len(), |i: int| items[i].wire())
}

/// Appends the repeated field `number`, one occurrence for each value of
/// `items`. Writes nothing and answers `false` when a value alone is longer
/// than a message may be.
pub fn put_messages<T: WireMessage>(out: &mut Vec<u8>, number: u32, items: &Vec<T>) -> (fits:
    bool)
    requires
        1 <= number <= MAX_FIELD_NUMBER,
    ensures
        fits == (forall|i: int|
            0 <= i < items@.len() ==> (#[trigger] items@[i]).wire().len() <= MAX_MESSAGE_BYTES),
        fits ==> final(out)@ == old(out)@ + serialize(repeated(number as nat, wires(items@))),
        !fits ==> final(out)@ == old(out)@,
        !fits ==> serialize(repeated(number as nat, wires(items@))).len() > MAX_MESSAGE_BYTES,
{
    let ghost all = wires(items@);
    let start: usize = out.len();
    let mut i: usize = 0;
    while i < items.len()
        invariant
            1 <= number <= MAX_FIELD_NUMBER,
            i <= items@.len(),
            all == wires(items@),
            start == old(out)@.len(),
            out@ == old(out)@ + serialize(repeated(number as nat, all.take(i as int))),
            forall|j: int|
                0 <= j < i ==> (#[trigger] items@[j]).wire().len() <= MAX_MESSAGE_BYTES,
        decreases items@.len() - i,
    {
        match items[i].encode() {
            Err(_) => {
                proof {
                    lemma_repeated_covers(number as nat, all, i as int);
                }
                out.truncate(start);
                return false;
            },
            Ok(payload) => {
                let fits = put_item(out, number, payload.as_slice());
                assert(fits);
                proof {
                    let done = repeated(number as nat, all.take(i as int));
                    let field = WireField::Bytes { number: number as nat, payload: all[i as int] };
                    assert(repeated(number as nat, all.take(i + 1)) =~= done.push(field));
                    lemma_serialize_push(done, field);
                    lemma_serialize_one(field);
                    assert(out@ =~= old(out)@ + serialize(
                        repeated(number as nat, all.take(i + 1)),
                    ));
                }
            },
        }
        i += 1;
    }
    proof {
        assert(all.take(i as int) =~= all);
    }
    true
}

/// The bytes of a balance change are those of its fields, one after the
/// other.
pub proof fn lemma_balance_change_parts(change: BalanceChangeView)
    ensures
        change.encoding() == serialize(text(1, change.pubkey)) + serialize(
            scalar(2, change.prev_lamports as nat),
        ) + serialize(scalar(3, change.new_lamports as nat)),
{
    let a = text(1, change.pubkey);
    let b = scalar(2, change.prev_lamports as nat);
    let c = scalar(3, change.new_lamports as nat);
    lemma_serialize_concat(a, b);
    lemma_serialize_concat(a + b, c);
}

impl WireMessage for BalanceChange {
    open spec fn wire(&self) -> Seq<u8> {
        self@.encoding()
    }

    fn encode(&self) -> (result: Result<Vec<u8>, EncodingError>) {
        proof {
            lemma_balance_change_parts(self@);
        }
        let mut out: Vec<u8> = Vec::new();
        if !put_text(&mut out, 1, self.pubkey.as_str()) {
            return Err(EncodingError::TooLarge);
        }
        put_scalar(&mut out, 2, self.prev_lamports);
        put_scalar(&mut out, 3, self.new_lamports);
        if out.len() > MAX_MESSAGE_BYTES {
            return Err(EncodingError::TooLarge);
        }
        Ok(out)
    }
}

/// The bytes of an account change are those of its fields, one after the
/// other.
pub proof fn lemma_account_change_parts(change: AccountChangeView)
    ensures
        change.encoding() == serialize(text(1, change.pubkey)) + serialize(
            blob(2, change.prev_data),
        ) + serialize(blob(3, change.new_data)) + serialize(
            scalar(4, change.new_data_length as nat),
        ),
{
    let a = text(1, change.pubkey);
    let b = blob(2, change.prev_data);
    let c = blob(3, change.new_data);
    let d = scalar(4, change.new_data_length as nat);
    lemma_serialize_concat(a, b);
    lemma_serialize_concat(a + b, c);
    lemma_serialize_concat(a + b + c, d);
}

impl WireMessage for AccountChange {
    open spec fn wire(&self) -> Seq<u8> {
        self@.encoding()
    }

    fn encode(&self) -> (result: Result<Vec<u8>, EncodingError>) {
        proof {
            lemma_account_change_parts(self@);
        }
        let mut out: Vec<u8> = Vec::new();
        if !put_text(&mut out, 1, self.pubkey.as_str()) {
            return Err(EncodingError::TooLarge);
        }
        if !put_blob(&mut out, 2, self.prev_data.as_slice()) {
            return Err(EncodingError::TooLarge);
        }
        if !put_blob(&mut out, 3, self.new_data.as_slice()) {
            return Err(EncodingError::TooLarge);
        }
        put_scalar(&mut out, 4, self.new_data_length);
        if out.len() > MAX_MESSAGE_BYTES {
            return Err(EncodingError::TooLarge);
        }
        Ok(out)
    }
}

/// The bytes of a frame are those of its fields, one after the other.
pub proof fn lemma_instruction_parts(frame: InstructionView)
    ensures
        frame.encoding() == serialize(text(3, frame.program_id)) + serialize(
            texts(4, frame.account_keys),
        ) + serialize(blob(5, frame.data)) + serialize(scalar(6, frame.ordinal as nat))
            + serialize(scalar(7, frame.parent_ordinal as nat)) + serialize(
            scalar(8, frame.depth as nat),
        ) + serialize(repeated(9, frame.balance_payloads())) + serialize(
            repeated(10, frame.account_payloads()),
        ),
{
    let a = text(3, frame.program_id);
    let b = texts(4, frame.account_keys);
    let c = blob(5, frame.data);
    let d = scalar(6, frame.ordinal as nat);
    let e = scalar(7, frame.parent_ordinal as nat);
    let f = scalar(8, frame.depth as nat);
    let g = repeated(9, frame.balance_payloads());
    let h = repeated(10, frame.account_payloads());
    lemma_serialize_concat(a, b);
    lemma_serialize_concat(a + b, c);
    lemma_serialize_concat(a + b + c, d);
    lemma_serialize_concat(a + b + c + d, e);
    lemma_serialize_concat(a + b + c + d + e, f);
    lemma_serialize_concat(a + b + c + d + e + f, g);
    lemma_serialize_concat(a + b + c + d + e + f + g, h);
}

impl WireMessage for Instruction {
    open spec fn wire(&self) -> Seq<u8> {
        self@.encoding()
    }

    fn encode(&self) -> (result: Result<Vec<u8>, EncodingError>) {
        proof {
            lemma_instruction_parts(self@);
            assert(wires(self.balance_changes@) =~= self@.balance_payloads());
            assert(wires(self.account_changes@) =~= self@.account_payloads());
        }
        let mut out: Vec<u8> = Vec::new();
        if !put_text(&mut out, 3, self.program_id.as_str()) {
            return Err(EncodingError::TooLarge);
        }
        if !put_texts(&mut out, 4, &self.account_keys) {
            return Err(EncodingError::TooLarge);
        }
        if !put_blob(&mut out, 5, self.data.as_slice()) {
            return Err(EncodingError::TooLarge);
        }
        put_scalar(&mut out, 6, self.ordinal as u64);
        put_scalar(&mut out, 7, self.parent_ordinal as u64);
        put_scalar(&mut out, 8, self.depth as u64);
        if !put_messages(&mut out, 9, &self.balance_changes) {
            return Err(EncodingError::TooLarge);
        }
        if !put_messages(&mut out, 10, &self.account_changes) {
            return Err(EncodingError::TooLarge);
        }
        if out.len() > MAX_MESSAGE_BYTES {
            return Err(EncodingError::TooLarge);
        }
        Ok(out)
    }
}

/// The bytes of a header are those of its fields, one after the other.
pub proof fn lemma_header_parts(header: MessageHeader)
    ensures
        header.encoding() == serialize(scalar(1, header.num_required_signatures as nat))
            + serialize(scalar(2, header.num_readonly_signed_accounts as nat)) + serialize(
            scalar(3, header.num_readonly_unsigned_accounts as nat),
        ),
{
    let a = scalar(1, header.num_required_signatures as nat);
    let b = scalar(2, header.num_readonly_signed_accounts as nat);
    let c = scalar(3, header.num_readonly_unsigned_accounts as nat);
    lemma_serialize_concat(a, b);
    lemma_serialize_concat(a + b, c);
}

impl WireMessage for MessageHeader {
    open spec fn wire(&self) -> Seq<u8> {
        self.encoding()
    }

    fn encode(&self) -> (result: Result<Vec<u8>, EncodingError>) {
        proof {
            lemma_header_parts(*self);
        }
        let mut out: Vec<u8> = Vec::new();
        put_scalar(&mut out, 1, self.num_required_signatures as u64);
        put_scalar(&mut out, 2, self.num_readonly_signed_accounts as u64);
        put_scalar(&mut out, 3, self.num_readonly_unsigned_accounts as u64);
        if out.len() > MAX_MESSAGE_BYTES {
            return Err(EncodingError::TooLarge);
        }
        Ok(out)
    }
}

/// The bytes of a transaction are those of its fields, one after the other.
pub proof fn lemma_transaction_parts(trace: TransactionView)
    ensures
        trace.encoding() == serialize(text(1, trace.id)) + serialize(
            texts(3, trace.additional_signatures),
        ) + serialize(header_field(trace.header)) + serialize(texts(5, trace.account_keys))
            + serialize(text(6, trace.recent_blockhash)) + serialize(
            texts(7, trace.log_messages),
        ) + serialize(repeated(8, trace.instruction_payloads())),
{
    let a = text(1, trace.id);
    let b = texts(3, trace.additional_signatures);
    let c = header_field(trace.header);
    let d = texts(5, trace.account_keys);
    let e = text(6, trace.recent_blockhash);
    let f = texts(7, trace.log_messages);
    let g = repeated(8, trace.instruction_payloads());
    lemma_serialize_concat(a, b);
    lemma_serialize_concat(a + b, c);
    lemma_serialize_concat(a + b + c, d);
    lemma_serialize_concat(a + b + c + d, e);
    lemma_serialize_concat(a + b + c + d + e, f);
    lemma_serialize_concat(a + b + c + d + e + f, g);
}

/// Appends the header field of a transaction, if it has a header.
fn put_header(out: &mut Vec<u8>, header: &Option<MessageHeader>)
    ensures
        final(out)@ == old(out)@ + serialize(header_field(*header)),
{
    match header {
        Some(h) => {
            match h.encode() {
                Ok(payload) => {
                    let fits = put_item(out, 4, payload.as_slice());
                    assert(fits);
                },
                Err(_) => {
                    proof {
                        lemma_header_short(*h);
                    }
                },
            }
        },
        None => {},
    }
}

/// A header never outgrows a message: it has three small fields.
pub proof fn lemma_header_short(header: MessageHeader)
    ensures
        header.encoding().len() <= 33,
{
    lemma_header_parts(header);
    lemma_scalar_short(1, header.num_required_signatures as nat);
    lemma_scalar_short(2, header.num_readonly_signed_accounts as nat);
    lemma_scalar_short(3, header.num_readonly_unsigned_accounts as nat);
}

impl WireMessage for Transaction {
    open spec fn wire(&self) -> Seq<u8> {
        self@.encoding()
    }

    fn encode(&self) -> (result: Result<Vec<u8>, EncodingError>) {
        proof {
            lemma_transaction_parts(self@);
            assert(wires(self.instructions@) =~= self@.instruction_payloads());
        }
        let mut out: Vec<u8> = Vec::new();
        if !put_text(&mut out, 1, self.id.as_str()) {
            return Err(EncodingError::TooLarge);
        }
        if !put_texts(&mut out, 3, &self.additional_signatures) {
            return Err(EncodingError::TooLarge);
        }
        put_header(&mut out, &self.header);
        if !put_texts(&mut out, 5, &self.account_keys) {
            return Err(EncodingError::TooLarge);
        }
        if !put_text(&mut out, 6, self.recent_blockhash.as_str()) {
            return Err(EncodingError::TooLarge);
        }
        if !put_texts(&mut out, 7, &self.log_messages) {
            return Err(EncodingError::TooLarge);
        }
        if !put_messages(&mut out, 8, &self.instructions) {
            return Err(EncodingError::TooLarge);
        }
        if out.len() > MAX_MESSAGE_BYTES {
            return Err(EncodingError::TooLarge);
        }
        Ok(out)
    }
}

/// The bytes of a batch are those of its fields, one after the other.
pub proof fn lemma_batch_parts(batch: BatchView)
    ensures
        batch.encoding() == serialize(repeated(1, batch.transaction_payloads())) + serialize(
            scalar(2, batch.batch_number as nat),
        ),
{
    lemma_serialize_concat(
        repeated(1, batch.transaction_payloads()),
        scalar(2, batch.batch_number as nat),
    );
}

impl WireMessage for Batch {
    open spec fn wire(&self) -> Seq<u8> {
        self@.encoding()
    }

    fn encode(&self) -> (result: Result<Vec<u8>, EncodingError>) {
        proof {
            lemma_batch_parts(self@);
            assert(wires(self.transactions@) =~= self@.transaction_payloads());
        }
        let mut out: Vec<u8> = Vec::new();
        if !put_messages(&mut out, 1, &self.transactions) {
            return Err(EncodingError::TooLarge);
        }
        put_scalar(&mut out, 2, self.batch_number);
        if out.len() > MAX_MESSAGE_BYTES {
            return Err(EncodingError::TooLarge);
        }
        Ok(out)
    }
}

} // verus!
