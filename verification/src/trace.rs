//! The trace data model: state changes, instruction frames and transaction
//! traces, each with the mathematical value that contracts speak of.

use crate::identity::AccountKey;
use vstd::prelude::*;
use vstd::slice::slice_to_vec;

verus! {

/// A balance of an account before and after one mutation.
#[derive(Clone, Debug, PartialEq, Eq)]
pub struct BalanceChange {
    pub pubkey: String,
    pub prev_lamports: u64,
    pub new_lamports: u64,
}

/// The value of a [`BalanceChange`].
#[verifier::ext_equal]
pub struct BalanceChangeView {
    pub pubkey: Seq<char>,
    pub prev_lamports: u64,
    pub new_lamports: u64,
}

impl View for BalanceChange {
    type V = BalanceChangeView;

    open spec fn view(&self) -> BalanceChangeView {
        BalanceChangeView {
            pubkey: self.pubkey@,
            prev_lamports: self.prev_lamports,
            new_lamports: self.new_lamports,
        }
    }
}

impl DeepView for BalanceChange {
    type V = BalanceChangeView;

    open spec fn deep_view(&self) -> BalanceChangeView {
        self@
    }
}

/// The payload of an account before and after one mutation.
/// `new_data_length` repeats the length of `new_data` for consumers that read
/// the declared length.
#[derive(Clone, Debug, PartialEq, Eq)]
pub struct AccountChange {
    pub pubkey: String,
    pub prev_data: Vec<u8>,
    pub new_data: Vec<u8>,
    pub new_data_length: u64,
}

/// The value of an [`AccountChange`].
#[verifier::ext_equal]
pub struct AccountChangeView {
    pub pubkey: Seq<char>,
    pub prev_data: Seq<u8>,
    pub new_data: Seq<u8>,
    pub new_data_length: u64,
}

impl View for AccountChange {
    type V = AccountChangeView;

    open spec fn view(&self) -> AccountChangeView {
        AccountChangeView {
            pubkey: self.pubkey@,
            prev_data: self.prev_data@,
            new_data: self.new_data@,
            new_data_length: self.new_data_length,
        }
    }
}

impl DeepView for AccountChange {
    type V = AccountChangeView;

    open spec fn deep_view(&self) -> AccountChangeView {
        self@
    }
}

/// One recorded invocation of a program: a node of a transaction's call tree.
/// `ordinal` numbers the frames of a transaction from 1 in the order in which
/// they were opened; `parent_ordinal` is the ordinal of the frame that was
/// active when this one was opened, 0 for a top-level instruction; `depth` is
/// the number of frames that were open at that moment.
#[derive(Clone, Debug, PartialEq, Eq)]
pub struct Instruction {
    pub program_id: String,
    pub account_keys: Vec<String>,
    pub data: Vec<u8>,
    pub ordinal: u32,
    pub parent_ordinal: u32,
    pub depth: u32,
    pub balance_changes: Vec<BalanceChange>,
    pub account_changes: Vec<AccountChange>,
}

/// The value of an [`Instruction`].
#[verifier::ext_equal]
pub struct InstructionView {
    pub program_id: Seq<char>,
    pub account_keys: Seq<Seq<char>>,
    pub data: Seq<u8>,
    pub ordinal: u32,
    pub parent_ordinal: u32,
    pub depth: u32,
    pub balance_changes: Seq<BalanceChangeView>,
    pub account_changes: Seq<AccountChangeView>,
}

impl View for Instruction {
    type V = InstructionView;

    open spec fn view(&self) -> InstructionView {
        InstructionView {
            program_id: self.program_id@,
            account_keys: self.account_keys.deep_view(),
            data: self.data@,
            ordinal: self.ordinal,
            parent_ordinal: self.parent_ordinal,
            depth: self.depth,
            balance_changes: self.balance_changes.deep_view(),
            account_changes: self.account_changes.deep_view(),
        }
    }
}

impl DeepView for Instruction {
    type V = InstructionView;

    open spec fn deep_view(&self) -> InstructionView {
        self@
    }
}

/// The counts that say which of a transaction's account keys must sign and
/// which are read-only.
#[derive(Clone, Copy, Debug, PartialEq, Eq)]
pub struct MessageHeader {
    pub num_required_signatures: u32,
    pub num_readonly_signed_accounts: u32,
    pub num_readonly_unsigned_accounts: u32,
}

/// One transaction's header fields, its instruction frames in the order of
/// their ordinals, and its log messages.
#[derive(Clone, Debug, PartialEq, Eq)]
pub struct Transaction {
    pub id: String,
    pub additional_signatures: Vec<String>,
    pub header: Option<MessageHeader>,
    pub account_keys: Vec<String>,
    pub recent_blockhash: String,
    pub log_messages: Vec<String>,
    pub instructions: Vec<Instruction>,
}

/// The value of a [`Transaction`].
#[verifier::ext_equal]
pub struct TransactionView {
    pub id: Seq<char>,
    pub additional_signatures: Seq<Seq<char>>,
    pub header: Option<MessageHeader>,
    pub account_keys: Seq<Seq<char>>,
    pub recent_blockhash: Seq<char>,
    pub log_messages: Seq<Seq<char>>,
    pub instructions: Seq<InstructionView>,
}

impl View for Transaction {
    type V = TransactionView;

    open spec fn view(&self) -> TransactionView {
        TransactionView {
            id: self.id@,
            additional_signatures: self.additional_signatures.deep_view(),
            header: self.header,
            account_keys: self.account_keys.deep_view(),
            recent_blockhash: self.recent_blockhash@,
            log_messages: self.log_messages.deep_view(),
            instructions: self.instructions.deep_view(),
        }
    }
}

impl DeepView for Transaction {
    type V = TransactionView;

    open spec fn deep_view(&self) -> TransactionView {
        self@
    }
}

impl TransactionView {
    /// The trace with nothing in it.
    pub open spec fn empty() -> TransactionView {
        TransactionView {
            id: Seq::empty(),
            additional_signatures: Seq::empty(),
            header: None,
            account_keys: Seq::empty(),
            recent_blockhash: Seq::empty(),
            log_messages: Seq::empty(),
            instructions: Seq::empty(),
        }
    }
}

impl Default for Transaction {
    /// The trace with nothing in it.
    fn default() -> (trace: Transaction)
        ensures
            trace@ == TransactionView::empty(),
    {
        let trace = Transaction {
            id: String::new(),
            additional_signatures: Vec::new(),
            header: None,
            account_keys: Vec::new(),
            recent_blockhash: String::new(),
            log_messages: Vec::new(),
            instructions: Vec::new(),
        };
        trace
    }
}

/// A batch as it is written: its number and the traces of its transactions,
/// in the order in which they were started.
#[derive(Clone, Debug, PartialEq, Eq)]
pub struct Batch {
    pub batch_number: u64,
    pub transactions: Vec<Transaction>,
}

/// The value of a [`Batch`].
#[verifier::ext_equal]
pub struct BatchView {
    pub batch_number: u64,
    pub transactions: Seq<TransactionView>,
}

impl View for Batch {
    type V = BatchView;

    open spec fn view(&self) -> BatchView {
        BatchView {
            batch_number: self.batch_number,
            transactions: self.transactions.deep_view(),
        }
    }
}

/// The account change that recording `pre` and `post` for `pubkey` appends.
pub open spec fn account_change_of(pubkey: AccountKey, pre: Seq<u8>, post: Seq<u8>)
    -> AccountChangeView {
    AccountChangeView {
        pubkey: pubkey.text(),
        prev_data: pre,
        new_data: post,
        new_data_length: post.len() as u64,
    }
}

/// The balance change that recording `pre` and `post` for `pubkey` appends.
pub open spec fn balance_change_of(pubkey: AccountKey, pre: u64, post: u64) -> BalanceChangeView {
    BalanceChangeView { pubkey: pubkey.text(), prev_lamports: pre, new_lamports: post }
}

impl InstructionView {
    /// This frame with `change` appended to its account changes.
    pub open spec fn with_account_change(self, change: AccountChangeView) -> InstructionView {
        InstructionView { account_changes: self.account_changes.push(change), ..self }
    }

    /// This frame with `change` appended to its balance changes.
    pub open spec fn with_balance_change(self, change: BalanceChangeView) -> InstructionView {
        InstructionView { balance_changes: self.balance_changes.push(change), ..self }
    }

    /// Whether `other` is this frame but for the changes recorded in it.
    pub open spec fn same_frame(self, other: InstructionView) -> bool {
        &&& self.program_id == other.program_id
        &&& self.account_keys == other.account_keys
        &&& self.data == other.data
        &&& self.ordinal == other.ordinal
        &&& self.parent_ordinal == other.parent_ordinal
        &&& self.depth == other.depth
    }
}

/// Converts a length with `num_traits::ToPrimitive::to_u64`. Trusted: a
/// length that fits in 64 bits comes back unchanged, any other gives `None`.
#[verifier::external_body]
fn length_to_u64(length: usize) -> (converted: Option<u64>)
    ensures
        length <= u64::MAX ==> converted == Some(length as u64),
        length > u64::MAX ==> converted is None,
{
    num_traits::ToPrimitive::to_u64(&length)
}

impl Instruction {
    /// Appends the payload change of account `pubkey` to this frame. Both
    /// payloads are copied; earlier changes stay, in order.
    pub fn add_account_change(&mut self, pubkey: AccountKey, pre: &[u8], post: &[u8])
        ensures
            final(self)@ == old(self)@.with_account_change(account_change_of(pubkey, pre@, post@)),
    {
        let change = AccountChange {
            pubkey: pubkey.to_text(),
            prev_data: slice_to_vec(pre),
            new_data: slice_to_vec(post),
            new_data_length: length_to_u64(post.len()).unwrap_or(0),
        };
        self.account_changes.push(change);
    }

    /// Appends the balance change of account `pubkey` to this frame. Earlier
    /// changes stay, in order.
    pub fn add_lamport_change(&mut self, pubkey: AccountKey, pre: u64, post: u64)
        ensures
            final(self)@ == old(self)@.with_balance_change(balance_change_of(pubkey, pre, post)),
    {
        let change = BalanceChange {
            pubkey: pubkey.to_text(),
            prev_lamports: pre,
            new_lamports: post,
        };
        self.balance_changes.push(change);
    }
}

} // verus!
