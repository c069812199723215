//! Fixed-length identities of accounts, programs and blocks, and the text
//! form under which they are recorded.

use vstd::prelude::*;

verus! {

/// The text that the Solana SDK prints for the account address made of the
/// given 32 bytes.
pub uninterp spec fn pubkey_text(bytes: Seq<u8>) -> Seq<char>;

/// The text that the Solana SDK prints for the hash made of the given 32
/// bytes.
pub uninterp spec fn hash_text(bytes: Seq<u8>) -> Seq<char>;

/// Identity of an account or of a program: the 32 bytes of its public key.
#[derive(Clone, Copy, Debug)]
pub struct AccountKey {
    pub bytes: [u8; 32],
}

/// Identity of a block: the 32 bytes of its hash.
#[derive(Clone, Copy, Debug)]
pub struct BlockHash {
    pub bytes: [u8; 32],
}

/// Prints an account address as `solana_sdk::pubkey::Pubkey` does through its
/// `Display` impl. Trusted: the result is the SDK's text for these 32 bytes,
/// and depends on nothing else.
#[verifier::external_body]
fn pubkey_to_string(bytes: &[u8; 32]) -> (text: String)
    ensures
        text@ == pubkey_text(bytes@),
{
    solana_sdk::pubkey::Pubkey::new_from_array(*bytes).to_string()
}

/// Prints a hash as `solana_program::hash::Hash` does through its `Display`
/// impl. Trusted: the result is the SDK's text for these 32 bytes, and
/// depends on nothing else.
#[verifier::external_body]
fn hash_to_string(bytes: &[u8; 32]) -> (text: String)
    ensures
        text@ == hash_text(bytes@),
{
    solana_program::hash::Hash::new_from_array(*bytes).to_string()
}

impl AccountKey {
    /// The text under which this key appears in a trace.
    pub open spec fn text(self) -> Seq<char> {
        pubkey_text(self.bytes@)
    }

    /// Wraps the 32 bytes of a public key.
    pub fn new(bytes: [u8; 32]) -> (key: AccountKey)
        ensures
            key.bytes == bytes,
    {
        AccountKey { bytes }
    }

    /// The text under which this key appears in a trace.
    pub fn to_text(&self) -> (text: String)
        ensures
            text@ == self.text(),
    {
        pubkey_to_string(&self.bytes)
    }
}

impl BlockHash {
    /// The text under which this hash appears in a trace.
    pub open spec fn text(self) -> Seq<char> {
        hash_text(self.bytes@)
    }

    /// Wraps the 32 bytes of a block hash.
    pub fn new(bytes: [u8; 32]) -> (hash: BlockHash)
        ensures
            hash.bytes == bytes,
    {
        BlockHash { bytes }
    }

    /// The text under which this hash appears in a trace.
    pub fn to_text(&self) -> (text: String)
        ensures
            text@ == self.text(),
    {
        hash_to_string(&self.bytes)
    }
}

/// The text of each key of `keys`, in order.
pub open spec fn key_texts(keys: Seq<AccountKey>) -> Seq<Seq<char>> {
    Seq::new(keys.len(), |i: int| keys[i].text())
}

/// Prints every key of `keys`, in order.
pub fn keys_to_text(keys: &[AccountKey]) -> (texts: Vec<String>)
    ensures
        texts.deep_view() == key_texts(keys@),
{
    let mut texts: Vec<String> = Vec::new();
    let mut i: usize = 0;
    while i < keys.len()
        invariant
            i <= keys@.len(),
            texts@.len() == i,
            forall|j: int| 0 <= j < i ==> (#[trigger] texts@[j])@ == keys@[j].text(),
        decreases keys@.len() - i,
    {
        let text = keys[i].to_text();
        texts.push(text);
        i += 1;
    }
    texts
}

} // verus!
