//! Accounts as the processor sees them.

use vstd::prelude::*;

verus! {

/// One account handed to the processor: who it is, whether it signed, what
/// it holds, and the bytes of its state.
#[derive(Clone, Debug)]
pub struct Account {
    /// Identity of the account.
    pub key: [u8; 32],
    /// Whether the transaction carries this account's signature.
    pub is_signer: bool,
    /// Held funds, in lamports.
    pub lamports: u64,
    /// State buffer. The processor writes into it and never resizes it.
    pub data: Vec<u8>,
}

/// An account as a mathematical value.
pub struct AccountView {
    pub key: Seq<u8>,
    pub is_signer: bool,
    pub lamports: nat,
    pub data: Seq<u8>,
}

impl AccountView {
    /// The accounts that an [`Account`] can hold: a 32-byte identity and
    /// held funds that fit in 64 bits.
    pub open spec fn valid(self) -> bool {
        &&& self.key.len() == 32
        &&& self.lamports <= u64::MAX
    }
}

impl View for Account {
    type V = AccountView;

    open spec fn view(&self) -> AccountView {
        AccountView {
            key: self.key@,
            is_signer: self.is_signer,
            lamports: self.lamports as nat,
            data: self.data@,
        }
    }
}

impl Account {
    /// Every account is a valid one.
    pub proof fn lemma_valid(self)
        ensures
            self@.valid(),
    {
    }
}

/// Tells whether two identities are the same.
pub fn same_identity(a: &[u8; 32], b: &[u8; 32]) -> (same: bool)
    ensures
        same == (a@ == b@),
{
    let mut i: usize = 0;
    while i < 32
        invariant
            i <= 32,
            forall|j: int| 0 <= j < i ==> a@[j] == b@[j],
        decreases 32 - i,
    {
        if a[i] != b[i] {
            return false;
        }
        i = i + 1;
    }
    assert(a@ =~= b@);
    true
}

} // verus!
