use vstd::prelude::*;

verus! {

/// Every way an invocation of the vault processor, or a direct use of the
/// record codec, can fail.
///
/// An error is terminal for the invocation that produced it: whenever one is
/// returned, no account has been changed.
#[derive(Clone, Copy, Debug, PartialEq, Eq, Structural)]
pub enum VaultError {
    /// The account buffer is shorter than a vault record.
    MalformedRecord,
    /// The destination buffer is shorter than a vault record.
    BufferTooSmall,
    /// The instruction buffer is empty, starts with an unknown opcode, or is
    /// too short for the payload of its opcode.
    InvalidInstructionData,
    /// Fewer than two accounts were handed to the processor.
    NotEnoughAccountKeys,
    /// Initialize was asked of a record that is already initialized.
    AlreadyInitialized,
    /// Deposit or Withdraw was asked of a record that is not initialized.
    UninitializedAccount,
    /// The withdrawing account did not sign the transaction.
    MissingAuthorization,
    /// The withdrawing account is not the owner recorded in the vault.
    NotOwner,
    /// The unlock time has not been reached yet.
    TooEarly,
    /// The depositor holds less than the amount, or the amount to withdraw
    /// exceeds the recorded balance.
    InsufficientFunds,
    /// The withdrawal would leave the vault account below its reserve floor.
    ReserveViolation,
    /// A transfer would push held funds or the recorded balance past
    /// `u64::MAX`.
    ArithmeticOverflow,
}

} // verus!
