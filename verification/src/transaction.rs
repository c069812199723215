//! Recording of one transaction: the call stack of open instruction frames
//! and the assignment of ordinals, parents and depths.

use crate::identity::{key_texts, keys_to_text, AccountKey};
use crate::trace::{Instruction, InstructionView, Transaction, TransactionView};
use vstd::prelude::*;
use vstd::slice::slice_to_vec;

verus! {

/// A misuse of the recording interface by the engine.
#[derive(Clone, Copy, Debug, PartialEq, Eq)]
pub enum ProtocolError {
    /// An instruction was ended while no frame was open.
    UnbalancedFrame,
    /// A transaction was started without any signature.
    EmptySignatureList,
    /// A change was recorded while no frame was open.
    NoActiveInstruction,
    /// An instruction, change or log call came before any transaction.
    NoActiveTransaction,
    /// The transaction already holds as many frames as ordinals exist.
    TooManyInstructions,
}

/// The largest number of frames that one transaction can hold: ordinals are
/// 32-bit and start at 1.
pub const MAX_INSTRUCTIONS: usize = 0xffff_ffff;

/// A transaction trace while it is being recorded. `call_stack` holds the
/// ordinals of the frames that are open, outermost first. A poisoned
/// transaction is left out when the batch is written.
#[derive(Clone, Debug, PartialEq, Eq)]
pub struct DMTransaction {
    pub pb_transaction: Transaction,
    pub call_stack: Vec<usize>,
    pub poisoned: bool,
}

/// The value of a [`DMTransaction`].
#[verifier::ext_equal]
pub struct RecordingView {
    pub trace: TransactionView,
    pub call_stack: Seq<usize>,
    pub poisoned: bool,
}

impl View for DMTransaction {
    type V = RecordingView;

    open spec fn view(&self) -> RecordingView {
        RecordingView {
            trace: self.pb_transaction@,
            call_stack: self.call_stack@,
            poisoned: self.poisoned,
        }
    }
}

impl DeepView for DMTransaction {
    type V = RecordingView;

    open spec fn deep_view(&self) -> RecordingView {
        self@
    }
}

/// The ordinal of the frame that encloses the open frame at level `k`, 0 for
/// the outermost.
pub open spec fn enclosing_ordinal(stack: Seq<usize>, k: int) -> int {
    if k == 0 {
        0
    } else {
        stack[k - 1] as int
    }
}

impl RecordingView {
    /// The number of frames recorded so far.
    pub open spec fn frame_count(self) -> nat {
        self.trace.instructions.len()
    }

    /// The number of frames that are open.
    pub open spec fn nesting(self) -> nat {
        self.call_stack.len()
    }

    /// The ordinal of the innermost open frame, 0 if none is open.
    pub open spec fn top_ordinal(self) -> int {
        if self.call_stack.len() == 0 {
            0
        } else {
            self.call_stack.last() as int
        }
    }

    /// Whether the call stack and the frames agree: the frames carry the
    /// ordinals 1, 2, ... in order; each frame's parent was recorded before
    /// it and lies one level above it; and the open frames are nested in one
    /// another from the outermost to the innermost.
    pub open spec fn wf(self) -> bool {
        let frames = self.trace.instructions;
        let stack = self.call_stack;
        &&& frames.len() <= MAX_INSTRUCTIONS
        &&& forall|i: int| 0 <= i < frames.len() ==> (#[trigger] frames[i]).ordinal == i + 1
        &&& forall|i: int|
            0 <= i < frames.len() ==> (#[trigger] frames[i]).parent_ordinal < frames[i].ordinal
        &&& forall|i: int|
            0 <= i < frames.len() && (#[trigger] frames[i]).parent_ordinal == 0
                ==> frames[i].depth == 0
        &&& forall|i: int|
            0 <= i < frames.len() && (#[trigger] frames[i]).parent_ordinal > 0
                ==> frames[i].depth == frames[frames[i].parent_ordinal - 1].depth + 1
        &&& forall|k: int| 0 <= k < stack.len() ==> 1 <= (#[trigger] stack[k]) <= frames.len()
        &&& forall|k: int| 0 <= k < stack.len() ==> frames[(#[trigger] stack[k]) - 1].depth == k
        &&& forall|k: int|
            0 <= k < stack.len() ==> frames[(#[trigger] stack[k]) - 1].parent_ordinal
                == enclosing_ordinal(stack, k)
    }

    /// The frame that opening an instruction appends. Ordinal, parent and
    /// depth are 32-bit numbers; in a well-formed recording all three fit.
    pub open spec fn next_frame(
        self,
        program_id: Seq<char>,
        account_keys: Seq<Seq<char>>,
        data: Seq<u8>,
    ) -> InstructionView {
        InstructionView {
            program_id,
            account_keys,
            data,
            ordinal: (self.frame_count() + 1) as u32,
            parent_ordinal: self.top_ordinal() as u32,
            depth: self.nesting() as u32,
            balance_changes: Seq::empty(),
            account_changes: Seq::empty(),
        }
    }

    /// Whether one more frame can be opened.
    pub open spec fn can_open(self) -> bool {
        self.frame_count() < MAX_INSTRUCTIONS
    }

    /// What starting an instruction answers.
    pub open spec fn open_result(self) -> Result<(), ProtocolError> {
        if self.can_open() {
            Ok(())
        } else {
            Err(ProtocolError::TooManyInstructions)
        }
    }

    /// What ending an instruction answers.
    pub open spec fn close_result(self) -> Result<(), ProtocolError> {
        if self.nesting() > 0 {
            Ok(())
        } else {
            Err(ProtocolError::UnbalancedFrame)
        }
    }

    /// The recording after an instruction was started: the new frame is
    /// appended and becomes the innermost open frame. Where no ordinal is
    /// left, nothing is recorded and the transaction is poisoned.
    pub open spec fn open(
        self,
        program_id: Seq<char>,
        account_keys: Seq<Seq<char>>,
        data: Seq<u8>,
    ) -> RecordingView {
        if self.can_open() {
            RecordingView {
                trace: TransactionView {
                    instructions: self.trace.instructions.push(
                        self.next_frame(program_id, account_keys, data),
                    ),
                    ..self.trace
                },
                call_stack: self.call_stack.push((self.frame_count() + 1) as usize),
                poisoned: self.poisoned,
            }
        } else {
            RecordingView { poisoned: true, ..self }
        }
    }

    /// The recording after an instruction was ended: the innermost open frame
    /// is closed and stays recorded. Where no frame is open, the transaction
    /// is poisoned.
    pub open spec fn close(self) -> RecordingView {
        if self.call_stack.len() > 0 {
            RecordingView { call_stack: self.call_stack.drop_last(), ..self }
        } else {
            RecordingView { poisoned: true, ..self }
        }
    }

    /// The recording after `message` was logged.
    pub open spec fn log(self, message: Seq<char>) -> RecordingView {
        RecordingView {
            trace: TransactionView {
                log_messages: self.trace.log_messages.push(message),
                ..self.trace
            },
            ..self
        }
    }

    /// Whether a frame is open and its ordinal names a recorded frame. In a
    /// well-formed recording this holds as soon as a frame is open.
    pub open spec fn has_active_frame(self) -> bool {
        self.call_stack.len() > 0 && 1 <= self.call_stack.last() <= self.frame_count()
    }

    /// The position of the innermost open frame among the recorded frames.
    pub open spec fn active_index(self) -> int
        recommends
            self.has_active_frame(),
    {
        self.call_stack.last() - 1
    }

    /// The recording with its innermost open frame replaced by `frame`.
    pub open spec fn with_active(self, frame: InstructionView) -> RecordingView
        recommends
            self.has_active_frame(),
    {
        RecordingView {
            trace: TransactionView {
                instructions: self.trace.instructions.update(self.active_index(), frame),
                ..self.trace
            },
            ..self
        }
    }

    /// The recording marked as poisoned.
    pub open spec fn poison(self) -> RecordingView {
        RecordingView { poisoned: true, ..self }
    }
}

impl Default for DMTransaction {
    /// A recording of the empty trace, with no frame open.
    fn default() -> (recording: DMTransaction)
        ensures
            recording@.trace == TransactionView::empty(),
            recording@.call_stack.len() == 0,
            !recording@.poisoned,
            recording@.wf(),
    {
        DMTransaction::new(Transaction::default())
    }
}

impl DMTransaction {
    /// A recording of `transaction` with no frame open. It is well formed
    /// when the transaction holds no frames yet.
    pub fn new(transaction: Transaction) -> (recording: DMTransaction)
        ensures
            recording@.trace == transaction@,
            recording@.call_stack.len() == 0,
            !recording@.poisoned,
            transaction@.instructions.len() == 0 ==> recording@.wf(),
    {
        DMTransaction { pb_transaction: transaction, call_stack: Vec::new(), poisoned: false }
    }

    /// Opens a frame for an invocation of `program_id`: the frame gets the
    /// next ordinal, the innermost open frame as its parent and the number of
    /// open frames as its depth, and becomes the innermost open frame. The
    /// input bytes are copied. Fails, poisoning the transaction, when all
    /// ordinals are used.
    pub fn start_instruction(
        &mut self,
        program_id: AccountKey,
        keyed_accounts: &[AccountKey],
        instruction_data: &[u8],
    ) -> (result: Result<(), ProtocolError>)
        ensures
            final(self)@ == old(self)@.open(
                program_id.text(),
                key_texts(keyed_accounts@),
                instruction_data@,
            ),
            result == old(self)@.open_result(),
            old(self)@.wf() ==> final(self)@.wf(),
    {
        let count: usize = self.pb_transaction.instructions.len();
        if count >= MAX_INSTRUCTIONS {
            self.poisoned = true;
            return Err(ProtocolError::TooManyInstructions);
        }
        let depth: usize = self.call_stack.len();
        let parent_ordinal: usize = if depth == 0 {
            0
        } else {
            self.call_stack[depth - 1]
        };
        let inst_ordinal: usize = count + 1;
        let inst = Instruction {
            program_id: program_id.to_text(),
            account_keys: keys_to_text(keyed_accounts),
            data: slice_to_vec(instruction_data),
            ordinal: inst_ordinal as u32,
            parent_ordinal: parent_ordinal as u32,
            depth: depth as u32,
            balance_changes: Vec::new(),
            account_changes: Vec::new(),
        };
        proof {
            assert(inst@ =~~= old(self)@.next_frame(
                program_id.text(),
                key_texts(keyed_accounts@),
                instruction_data@,
            ));
        }
        self.call_stack.push(inst_ordinal);
        self.pb_transaction.instructions.push(inst);
        proof {
            let after = old(self)@.open(
                program_id.text(),
                key_texts(keyed_accounts@),
                instruction_data@,
            );
            assert(self@ =~~= after);
            if old(self)@.wf() {
                lemma_open_keeps_wf(
                    old(self)@,
                    program_id.text(),
                    key_texts(keyed_accounts@),
                    instruction_data@,
                );
            }
        }
        Ok(())
    }

    /// Closes the innermost open frame; the frame stays recorded. Fails,
    /// poisoning the transaction, when no frame is open.
    pub fn end_instruction(&mut self) -> (result: Result<(), ProtocolError>)
        ensures
            final(self)@ == old(self)@.close(),
            result == old(self)@.close_result(),
            old(self)@.wf() ==> final(self)@.wf(),
    {
        if self.call_stack.len() == 0 {
            self.poisoned = true;
            return Err(ProtocolError::UnbalancedFrame);
        }
        self.call_stack.pop();
        proof {
            if old(self)@.wf() {
                lemma_close_keeps_wf(old(self)@);
            }
        }
        Ok(())
    }

    /// Appends `log` to the transaction's log messages.
    pub fn add_log(&mut self, log: String)
        ensures
            final(self)@ == old(self)@.log(log@),
            old(self)@.wf() ==> final(self)@.wf(),
    {
        self.pb_transaction.log_messages.push(log);
    }

    /// Whether a frame is open and its ordinal names a recorded frame.
    pub fn has_active_instruction(&self) -> (open: bool)
        ensures
            open == self@.has_active_frame(),
    {
        let depth: usize = self.call_stack.len();
        if depth == 0 {
            return false;
        }
        let top: usize = self.call_stack[depth - 1];
        1 <= top && top <= self.pb_transaction.instructions.len()
    }

    /// The innermost open frame, found by its ordinal. What the caller writes
    /// through the reference replaces that frame; nothing else changes. A
    /// frame must be open.
    pub fn active_instruction(&mut self) -> (inst: &mut Instruction)
        requires
            old(self)@.has_active_frame(),
        ensures
            inst@ == old(self)@.trace.instructions[old(self)@.active_index()],
            final(self)@ == old(self)@.with_active(final(inst)@),
    {
        let top: usize = self.call_stack[self.call_stack.len() - 1];
        &mut self.pb_transaction.instructions[top - 1]
    }
}

/// Opening a frame keeps a recording well formed.
pub proof fn lemma_open_keeps_wf(
    recording: RecordingView,
    program_id: Seq<char>,
    account_keys: Seq<Seq<char>>,
    data: Seq<u8>,
)
    requires
        recording.wf(),
    ensures
        recording.open(program_id, account_keys, data).wf(),
{
    if recording.nesting() > 0 {
        lemma_stack_entry_bound(recording, recording.nesting() - 1);
    }
}

/// In a well-formed recording the open frame at level `k` has an ordinal of
/// at least `k + 1`: its ancestors were opened before it.
pub proof fn lemma_stack_entry_bound(recording: RecordingView, k: int)
    requires
        recording.wf(),
        0 <= k < recording.call_stack.len(),
    ensures
        recording.call_stack[k] as int >= k + 1,
    decreases k,
{
    let frames = recording.trace.instructions;
    let stack = recording.call_stack;
    if k > 0 {
        lemma_stack_entry_bound(recording, k - 1);
        let frame = frames[stack[k] - 1];
        assert(frame.parent_ordinal == stack[k - 1]);
        assert(frame.parent_ordinal < frame.ordinal);
    }
}

/// Closing a frame keeps a recording well formed.
pub proof fn lemma_close_keeps_wf(recording: RecordingView)
    requires
        recording.wf(),
    ensures
        recording.close().wf(),
{
}

} // verus!
