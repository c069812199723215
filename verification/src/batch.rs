//! The batch recorder: the transactions of one batch, the recording calls of
//! the engine, and the flush that turns the batch into its artifact.

use crate::decimal::{append_decimal, decimal};
use crate::encode::WireMessage;
use crate::identity::{key_texts, AccountKey, BlockHash};
use crate::trace::{
    account_change_of, balance_change_of, AccountChangeView, BalanceChangeView, Batch, BatchView,
    MessageHeader, Transaction, TransactionView,
};
use crate::transaction::{DMTransaction, ProtocolError, RecordingView};
use crate::wire::{lemma_scalar_short, MAX_MESSAGE_BYTES};
use vstd::prelude::*;
use vstd::string::*;

verus! {

/// The recorder of one batch. The transaction started last is the active one:
/// instruction, change and log calls go to it. `path` names the file that the
/// batch is written to.
#[derive(Debug)]
pub struct DMBatchContext {
    pub batch_number: u64,
    pub trxs: Vec<DMTransaction>,
    pub path: String,
}

/// The value of a [`DMBatchContext`].
#[verifier::ext_equal]
pub struct RecorderView {
    pub batch_number: u64,
    pub trxs: Seq<RecordingView>,
    pub path: Seq<char>,
}

impl View for DMBatchContext {
    type V = RecorderView;

    open spec fn view(&self) -> RecorderView {
        RecorderView {
            batch_number: self.batch_number,
            trxs: self.trxs.deep_view(),
            path: self.path@,
        }
    }
}

/// What a flush hands to the output sink: the file to write, the bytes of
/// the batch, and the ids of the transactions that were left out of it.
#[derive(Debug, PartialEq, Eq)]
pub struct BatchArtifact {
    pub path: String,
    pub bytes: Vec<u8>,
    pub quarantined: Vec<String>,
}

/// The value of a [`BatchArtifact`].
#[verifier::ext_equal]
pub struct ArtifactView {
    pub path: Seq<char>,
    pub bytes: Seq<u8>,
    pub quarantined: Seq<Seq<char>>,
}

impl View for BatchArtifact {
    type V = ArtifactView;

    open spec fn view(&self) -> ArtifactView {
        ArtifactView {
            path: self.path@,
            bytes: self.bytes@,
            quarantined: self.quarantined.deep_view(),
        }
    }
}

/// What the output sink reports after it was given an artifact.
#[derive(Clone, Copy, Debug, PartialEq, Eq)]
pub enum SinkReport {
    /// All bytes were written and the durability barrier succeeded.
    Persisted,
    /// Writing failed; `offset` is the number of bytes written before, if
    /// the sink knows it.
    WriteFailed { offset: Option<u64> },
    /// All bytes were written, but the durability barrier failed.
    SyncFailed,
}

/// Why a flush did not end in a durable artifact.
#[derive(Clone, Debug, PartialEq, Eq)]
pub enum FlushError {
    /// The batch is too large for the wire format.
    Encoding { path: String },
    /// The sink failed to write the bytes.
    Write { path: String, offset: Option<u64> },
    /// The sink failed to make the bytes durable.
    Sync { path: String },
}

/// The name of the file for batch `batch_id` of shard `file_number`, in
/// `directory`: shards are counted from 1 in file names.
pub open spec fn file_path(directory: Seq<char>, file_number: nat, batch_id: nat) -> Seq<char> {
    directory + "dmlog-"@ + decimal(file_number + 1) + "-"@ + decimal(batch_id)
}

/// The line that announces a durable artifact at `path`.
pub open spec fn marker_line(path: Seq<char>) -> Seq<char> {
    "DMLOG BATCH_FILE "@ + path
}

/// The header made of the three counts of a transaction message.
pub open spec fn header_of(
    num_required_signatures: u8,
    num_readonly_signed_accounts: u8,
    num_readonly_unsigned_accounts: u8,
) -> MessageHeader {
    MessageHeader {
        num_required_signatures: num_required_signatures as u32,
        num_readonly_signed_accounts: num_readonly_signed_accounts as u32,
        num_readonly_unsigned_accounts: num_readonly_unsigned_accounts as u32,
    }
}

/// The trace of a transaction that has just been started: the first
/// signature is its id, the others are its further signatures; it has no
/// frames and no log messages yet.
pub open spec fn fresh_trace(
    sigs: Seq<Seq<char>>,
    header: MessageHeader,
    account_keys: Seq<Seq<char>>,
    recent_blockhash: Seq<char>,
) -> TransactionView
    recommends
        sigs.len() > 0,
{
    TransactionView {
        id: sigs[0],
        additional_signatures: sigs.skip(1),
        header: Some(header),
        account_keys,
        recent_blockhash,
        log_messages: Seq::empty(),
        instructions: Seq::empty(),
    }
}

/// The traces of the transactions that are not poisoned, in order.
pub open spec fn surviving(trxs: Seq<RecordingView>) -> Seq<TransactionView>
    decreases trxs.len(),
{
    if trxs.len() == 0 {
        Seq::empty()
    } else if trxs.last().poisoned {
        surviving(trxs.drop_last())
    } else {
        surviving(trxs.drop_last()).push(trxs.last().trace)
    }
}

/// The ids of the transactions that are poisoned, in order.
pub open spec fn quarantined(trxs: Seq<RecordingView>) -> Seq<Seq<char>>
    decreases trxs.len(),
{
    if trxs.len() == 0 {
        Seq::empty()
    } else if trxs.last().poisoned {
        quarantined(trxs.drop_last()).push(trxs.last().trace.id)
    } else {
        quarantined(trxs.drop_last())
    }
}

impl RecorderView {
    /// Whether every transaction of the batch is well formed.
    pub open spec fn wf(self) -> bool {
        forall|i: int| 0 <= i < self.trxs.len() ==> (#[trigger] self.trxs[i]).wf()
    }

    /// The number of transactions that wait to be flushed.
    pub open spec fn pending(self) -> nat {
        self.trxs.len()
    }

    /// Whether a transaction is active.
    pub open spec fn has_active(self) -> bool {
        self.trxs.len() > 0
    }

    /// The active transaction: the one started last.
    pub open spec fn active(self) -> RecordingView
        recommends
            self.has_active(),
    {
        self.trxs.last()
    }

    /// The recorder with its active transaction replaced by `recording`.
    pub open spec fn with_active(self, recording: RecordingView) -> RecorderView
        recommends
            self.has_active(),
    {
        RecorderView { trxs: self.trxs.update(self.trxs.len() - 1, recording), ..self }
    }

    /// What starting a transaction with these signatures answers.
    pub open spec fn begin_result(sigs: Seq<Seq<char>>) -> Result<(), ProtocolError> {
        if sigs.len() == 0 {
            Err(ProtocolError::EmptySignatureList)
        } else {
            Ok(())
        }
    }

    /// The recorder after a transaction was started: the new transaction is
    /// appended and becomes the active one. Without a signature nothing
    /// changes.
    pub open spec fn begin(
        self,
        sigs: Seq<Seq<char>>,
        header: MessageHeader,
        account_keys: Seq<Seq<char>>,
        recent_blockhash: Seq<char>,
    ) -> RecorderView {
        if sigs.len() == 0 {
            self
        } else {
            RecorderView {
                trxs: self.trxs.push(
                    RecordingView {
                        trace: fresh_trace(sigs, header, account_keys, recent_blockhash),
                        call_stack: Seq::empty(),
                        poisoned: false,
                    },
                ),
                ..self
            }
        }
    }

    /// What starting an instruction answers.
    pub open spec fn open_result(self) -> Result<(), ProtocolError> {
        if !self.has_active() {
            Err(ProtocolError::NoActiveTransaction)
        } else if !self.active().can_open() {
            Err(ProtocolError::TooManyInstructions)
        } else {
            Ok(())
        }
    }

    /// The recorder after an instruction was started in the active
    /// transaction. Without an active transaction nothing changes.
    pub open spec fn open(
        self,
        program_id: Seq<char>,
        account_keys: Seq<Seq<char>>,
        data: Seq<u8>,
    ) -> RecorderView {
        if self.has_active() {
            self.with_active(self.active().open(program_id, account_keys, data))
        } else {
            self
        }
    }

    /// What ending an instruction answers.
    pub open spec fn close_result(self) -> Result<(), ProtocolError> {
        if !self.has_active() {
            Err(ProtocolError::NoActiveTransaction)
        } else if self.active().nesting() == 0 {
            Err(ProtocolError::UnbalancedFrame)
        } else {
            Ok(())
        }
    }

    /// The recorder after an instruction was ended in the active transaction.
    /// Without an active transaction nothing changes.
    pub open spec fn close(self) -> RecorderView {
        if self.has_active() {
            self.with_active(self.active().close())
        } else {
            self
        }
    }

    /// What recording a change answers.
    pub open spec fn record_result(self) -> Result<(), ProtocolError> {
        if !self.has_active() {
            Err(ProtocolError::NoActiveTransaction)
        } else if !self.active().has_active_frame() {
            Err(ProtocolError::NoActiveInstruction)
        } else {
            Ok(())
        }
    }

    /// The recorder after an account change was recorded: it is appended to
    /// the innermost open frame of the active transaction. Where no frame is
    /// open, the active transaction is poisoned; without an active
    /// transaction nothing changes.
    pub open spec fn record_account_change(self, change: AccountChangeView) -> RecorderView {
        if !self.has_active() {
            self
        } else if !self.active().has_active_frame() {
            self.with_active(self.active().poison())
        } else {
            let active = self.active();
            let frame = active.trace.instructions[active.active_index()];
            self.with_active(active.with_active(frame.with_account_change(change)))
        }
    }

    /// The recorder after a balance change was recorded: it is appended to
    /// the innermost open frame of the active transaction. Where no frame is
    /// open, the active transaction is poisoned; without an active
    /// transaction nothing changes.
    pub open spec fn record_balance_change(self, change: BalanceChangeView) -> RecorderView {
        if !self.has_active() {
            self
        } else if !self.active().has_active_frame() {
            self.with_active(self.active().poison())
        } else {
            let active = self.active();
            let frame = active.trace.instructions[active.active_index()];
            self.with_active(active.with_active(frame.with_balance_change(change)))
        }
    }

    /// What logging a message answers.
    pub open spec fn log_result(self) -> Result<(), ProtocolError> {
        if !self.has_active() {
            Err(ProtocolError::NoActiveTransaction)
        } else {
            Ok(())
        }
    }

    /// The recorder after `message` was logged in the active transaction.
    /// Without an active transaction nothing changes.
    pub open spec fn log(self, message: Seq<char>) -> RecorderView {
        if self.has_active() {
            self.with_active(self.active().log(message))
        } else {
            self
        }
    }

    /// The batch that a flush writes: the transactions that are not
    /// poisoned, in start order.
    pub open spec fn batch(self) -> BatchView {
        BatchView { batch_number: self.batch_number, transactions: surviving(self.trxs) }
    }

    /// Whether `other` holds the same transactions with the same traces,
    /// whatever else differs.
    pub open spec fn same_traces(self, other: RecorderView) -> bool {
        &&& self.trxs.len() == other.trxs.len()
        &&& forall|i: int|
            0 <= i < self.trxs.len() ==> (#[trigger] self.trxs[i]).trace == other.trxs[i].trace
    }

    /// Whether `other` holds the same transactions, all but the active one
    /// unchanged.
    pub open spec fn same_but_active(self, other: RecorderView) -> bool {
        &&& self.trxs.len() == other.trxs.len()
        &&& forall|i: int|
            0 <= i < self.trxs.len() - 1 ==> #[trigger] self.trxs[i] == other.trxs[i]
    }

    /// What a flush hands out when the batch fits the wire format.
    pub open spec fn artifact(self) -> ArtifactView {
        ArtifactView {
            path: self.path,
            bytes: self.batch().encoding(),
            quarantined: quarantined(self.trxs),
        }
    }

    /// The recorder after a flush: no transaction is pending.
    pub open spec fn drained(self) -> RecorderView {
        RecorderView { trxs: Seq::empty(), ..self }
    }
}

/// Moves the transaction at `index` out of `list`, leaving an empty
/// recording in its place.
fn take_recording(list: &mut Vec<DMTransaction>, index: usize) -> (taken: DMTransaction)
    requires
        index < old(list)@.len(),
    ensures
        taken == old(list)@[index as int],
        final(list)@.len() == old(list)@.len(),
        forall|j: int|
            0 <= j < old(list)@.len() && j != index ==> final(list)@[j] == old(list)@[j],
{
    let mut slot = DMTransaction::default();
    core::mem::swap(&mut slot, &mut list[index]);
    slot
}

impl DMBatchContext {
    /// A recorder for batch `batch_id` of shard `file_number`, with no
    /// transaction yet. Its file lies in `directory`, which is taken as it is
    /// (a directory ends with its separator).
    pub fn new(batch_id: u64, file_number: usize, directory: &str) -> (recorder: DMBatchContext)
        ensures
            recorder@.batch_number == batch_id,
            recorder@.trxs.len() == 0,
            recorder@.path == file_path(directory@, file_number as nat, batch_id as nat),
            recorder@.wf(),
    {
        let mut path = String::from_str(directory);
        path.append("dmlog-");
        append_decimal(&mut path, file_number as u128 + 1);
        path.append("-");
        append_decimal(&mut path, batch_id as u128);
        DMBatchContext { batch_number: batch_id, trxs: Vec::new(), path }
    }

    /// The number of transactions that wait to be flushed.
    pub fn pending(&self) -> (count: usize)
        ensures
            count == self@.pending(),
    {
        self.trxs.len()
    }

    /// Starts a transaction and makes it the active one. The first signature
    /// is its id, the others are its further signatures. Fails, changing
    /// nothing, when there is no signature.
    pub fn start_trx(
        &mut self,
        sigs: Vec<String>,
        num_required_signatures: u8,
        num_readonly_signed_accounts: u8,
        num_readonly_unsigned_accounts: u8,
        account_keys: Vec<String>,
        recent_blockhash: BlockHash,
    ) -> (result: Result<(), ProtocolError>)
        ensures
            result == RecorderView::begin_result(sigs.deep_view()),
            final(self)@ == old(self)@.begin(
                sigs.deep_view(),
                header_of(
                    num_required_signatures,
                    num_readonly_signed_accounts,
                    num_readonly_unsigned_accounts,
                ),
                account_keys.deep_view(),
                recent_blockhash.text(),
            ),
            old(self)@.wf() ==> final(self)@.wf(),
    {
        if sigs.len() == 0 {
            return Err(ProtocolError::EmptySignatureList);
        }
        let mut rest = sigs;
        let id = rest.remove(0);
        let header = MessageHeader {
            num_required_signatures: num_required_signatures as u32,
            num_readonly_signed_accounts: num_readonly_signed_accounts as u32,
            num_readonly_unsigned_accounts: num_readonly_unsigned_accounts as u32,
        };
        let trx = Transaction {
            id,
            additional_signatures: rest,
            header: Some(header),
            account_keys,
            recent_blockhash: recent_blockhash.to_text(),
            log_messages: Vec::new(),
            instructions: Vec::new(),
        };
        self.trxs.push(DMTransaction::new(trx));
        proof {
            assert(self@ =~~= old(self)@.begin(
                sigs.deep_view(),
                header,
                account_keys.deep_view(),
                recent_blockhash.text(),
            ));
        }
        Ok(())
    }

    /// Starts an instruction in the active transaction. Does nothing but
    /// answer the error when no transaction is active.
    pub fn start_instruction(
        &mut self,
        program_id: AccountKey,
        keyed_accounts: &[AccountKey],
        instruction_data: &[u8],
    ) -> (result: Result<(), ProtocolError>)
        ensures
            result == old(self)@.open_result(),
            final(self)@ == old(self)@.open(
                program_id.text(),
                key_texts(keyed_accounts@),
                instruction_data@,
            ),
            old(self)@.wf() ==> final(self)@.wf(),
    {
        let count: usize = self.trxs.len();
        if count == 0 {
            return Err(ProtocolError::NoActiveTransaction);
        }
        let result = self.trxs[count - 1].start_instruction(
            program_id,
            keyed_accounts,
            instruction_data,
        );
        result
    }

    /// Ends the innermost open instruction of the active transaction. Where
    /// none is open, that transaction is poisoned, and neither its trace nor
    /// any other transaction changes. Does nothing but answer the error when
    /// no transaction is active.
    pub fn end_instruction(&mut self) -> (result: Result<(), ProtocolError>)
        ensures
            result == old(self)@.close_result(),
            final(self)@ == old(self)@.close(),
            old(self)@.wf() ==> final(self)@.wf(),
            result is Err ==> final(self)@.same_traces(old(self)@),
            final(self)@.same_but_active(old(self)@),
    {
        let count: usize = self.trxs.len();
        if count == 0 {
            return Err(ProtocolError::NoActiveTransaction);
        }
        let result = self.trxs[count - 1].end_instruction();
        result
    }

    /// Records a payload change of account `pubkey` in the innermost open
    /// instruction of the active transaction. Where none is open, that
    /// transaction is poisoned. Does nothing but answer the error when no
    /// transaction is active.
    pub fn account_change(&mut self, pubkey: AccountKey, pre: &[u8], post: &[u8]) -> (result:
        Result<(), ProtocolError>)
        ensures
            result == old(self)@.record_result(),
            final(self)@ == old(self)@.record_account_change(
                account_change_of(pubkey, pre@, post@),
            ),
            old(self)@.wf() ==> final(self)@.wf(),
    {
        let count: usize = self.trxs.len();
        if count == 0 {
            return Err(ProtocolError::NoActiveTransaction);
        }
        let transaction = &mut self.trxs[count - 1];
        if !transaction.has_active_instruction() {
            transaction.poisoned = true;
            return Err(ProtocolError::NoActiveInstruction);
        }
        let instruction = transaction.active_instruction();
        instruction.add_account_change(pubkey, pre, post);
        Ok(())
    }

    /// Records a balance change of account `pubkey` in the innermost open
    /// instruction of the active transaction. Where none is open, that
    /// transaction is poisoned. Does nothing but answer the error when no
    /// transaction is active.
    pub fn lamport_change(&mut self, pubkey: AccountKey, pre: u64, post: u64) -> (result: Result<
        (),
        ProtocolError,
    >)
        ensures
            result == old(self)@.record_result(),
            final(self)@ == old(self)@.record_balance_change(balance_change_of(pubkey, pre, post)),
            old(self)@.wf() ==> final(self)@.wf(),
    {
        let count: usize = self.trxs.len();
        if count == 0 {
            return Err(ProtocolError::NoActiveTransaction);
        }
        let transaction = &mut self.trxs[count - 1];
        if !transaction.has_active_instruction() {
            transaction.poisoned = true;
            return Err(ProtocolError::NoActiveInstruction);
        }
        let instruction = transaction.active_instruction();
        instruction.add_lamport_change(pubkey, pre, post);
        Ok(())
    }

    /// Appends `log` to the log messages of the active transaction. Does
    /// nothing but answer the error when no transaction is active.
    pub fn add_log(&mut self, log: String) -> (result: Result<(), ProtocolError>)
        ensures
            result == old(self)@.log_result(),
            final(self)@ == old(self)@.log(log@),
            old(self)@.wf() ==> final(self)@.wf(),
    {
        let count: usize = self.trxs.len();
        if count == 0 {
            return Err(ProtocolError::NoActiveTransaction);
        }
        self.trxs[count - 1].add_log(log);
        Ok(())
    }

    /// Takes all pending transactions out of the recorder and encodes those
    /// that are not poisoned, in start order, as one batch. The ids of the
    /// poisoned ones are handed out beside the bytes. Fails exactly when the
    /// batch is too large for the wire format; a batch without transactions
    /// never is.
    pub fn flush(&mut self) -> (result: Result<BatchArtifact, FlushError>)
        ensures
            final(self)@ == old(self)@.drained(),
            final(self)@.wf(),
            old(self)@.batch().encoding().len() <= MAX_MESSAGE_BYTES <==> result is Ok,
            old(self)@.pending() == 0 ==> result is Ok,
            match result {
                Ok(artifact) => artifact@ == old(self)@.artifact(),
                Err(error) => error matches FlushError::Encoding { path } && path@ == old(
                    self,
                )@.path,
            },
    {
        let mut pending: Vec<DMTransaction> = Vec::new();
        core::mem::swap(&mut pending, &mut self.trxs);
        let ghost all = old(self)@.trxs;
        let mut kept: Vec<Transaction> = Vec::new();
        let mut dropped: Vec<String> = Vec::new();
        let mut i: usize = 0;
        while i < pending.len()
            invariant
                i <= pending@.len(),
                pending@.len() == all.len(),
                forall|j: int| i <= j < all.len() ==> (#[trigger] pending@[j])@ == all[j],
                kept.deep_view() == surviving(all.take(i as int)),
                dropped.deep_view() == quarantined(all.take(i as int)),
            decreases pending@.len() - i,
        {
            let recording = take_recording(&mut pending, i);
            proof {
                assert(all.take(i + 1).drop_last() =~= all.take(i as int));
            }
            if recording.poisoned {
                dropped.push(recording.pb_transaction.id);
            } else {
                kept.push(recording.pb_transaction);
            }
            i += 1;
        }
        proof {
            assert(all.take(i as int) =~= all);
        }
        let batch = Batch { batch_number: self.batch_number, transactions: kept };
        proof {
            if old(self)@.pending() == 0 {
                lemma_empty_batch_short(self.batch_number);
            }
        }
        match batch.encode() {
            Ok(bytes) => Ok(BatchArtifact { path: self.path.clone(), bytes, quarantined: dropped }),
            Err(_) => Err(FlushError::Encoding { path: self.path.clone() }),
        }
    }
}

/// A batch without transactions takes at most eleven bytes.
pub proof fn lemma_empty_batch_short(batch_number: u64)
    ensures
        (BatchView { batch_number, transactions: Seq::empty() }).encoding().len() <= 11,
{
    lemma_scalar_short(2, batch_number as nat);
}

impl BatchArtifact {
    /// Decides how a flush ended, from what the sink reports, and uses the
    /// artifact up. Only a batch that was written and made durable is
    /// announced: the answer is then the completion line that names the file.
    /// Any failure comes back with the file's path, and with the offset where
    /// the sink gave one.
    pub fn conclude(self, report: SinkReport) -> (result: Result<String, FlushError>)
        ensures
            match report {
                SinkReport::Persisted => result matches Ok(line) && line@ == marker_line(
                    self@.path,
                ),
                SinkReport::WriteFailed { offset } => result matches Err(
                    FlushError::Write { path, offset: at },
                ) && path@ == self@.path && at == offset,
                SinkReport::SyncFailed => result matches Err(FlushError::Sync { path }) && path@
                    == self@.path,
            },
    {
        match report {
            SinkReport::Persisted => {
                let mut line = String::from_str("DMLOG BATCH_FILE ");
                line.append(self.path.as_str());
                Ok(line)
            },
            SinkReport::WriteFailed { offset } => Err(
                FlushError::Write { path: self.path, offset },
            ),
            SinkReport::SyncFailed => Err(FlushError::Sync { path: self.path }),
        }
    }
}

} // verus!
