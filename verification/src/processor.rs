//! The vault processor: applies one instruction to a vault account and a
//! user account.
//!
//! An invocation either succeeds and applies its whole effect, or fails with
//! the first violated precondition and changes nothing.

use crate::account::{same_identity, Account, AccountView};
use crate::error::VaultError;
use crate::instruction::{parse, Instruction};
use crate::vault::{decode, stored, Vault, VaultView, RECORD_LEN};
use vstd::prelude::*;

verus! {

/// Unix timestamp from which every vault releases its funds. Initialize
/// writes it into the record.
pub const UNLOCK_TIME: i64 = 1764182400;

/// The record that Initialize writes for the given owner.
pub open spec fn fresh_record(owner: Seq<u8>) -> VaultView {
    VaultView { owner, unlock_time: UNLOCK_TIME as int, balance: 0, is_initialized: true }
}

/// The record held by a vault account.
pub open spec fn record_of(vault: AccountView) -> VaultView
    recommends
        vault.data.len() >= RECORD_LEN,
{
    decode(vault.data)
}

/// The vault account with `record` persisted in place of its old record.
pub open spec fn with_record(vault: AccountView, record: VaultView) -> AccountView {
    AccountView { data: stored(record, vault.data), ..vault }
}

/// The first precondition of Initialize that the vault account violates.
pub open spec fn initialize_failure(vault: AccountView) -> Option<VaultError> {
    if vault.data.len() < RECORD_LEN {
        Some(VaultError::MalformedRecord)
    } else if record_of(vault).is_initialized {
        Some(VaultError::AlreadyInitialized)
    } else {
        None
    }
}

/// The vault account after a successful Initialize by `user`.
pub open spec fn initialized(vault: AccountView, user: AccountView) -> AccountView {
    with_record(vault, fresh_record(user.key))
}

/// The first precondition of a Deposit of `amount` that the accounts violate.
pub open spec fn deposit_failure(vault: AccountView, user: AccountView, amount: nat) -> Option<
    VaultError,
> {
    if vault.data.len() < RECORD_LEN {
        Some(VaultError::MalformedRecord)
    } else if !record_of(vault).is_initialized {
        Some(VaultError::UninitializedAccount)
    } else if user.lamports < amount {
        Some(VaultError::InsufficientFunds)
    } else if vault.lamports + amount > u64::MAX || record_of(vault).balance + amount > u64::MAX {
        Some(VaultError::ArithmeticOverflow)
    } else {
        None
    }
}

/// The first precondition of a Withdraw of `amount` that the accounts, the
/// clock reading `now` or the vault's reserve floor violate.
pub open spec fn withdraw_failure(
    vault: AccountView,
    user: AccountView,
    amount: nat,
    now: int,
    reserve_floor: nat,
) -> Option<VaultError> {
    if vault.data.len() < RECORD_LEN {
        Some(VaultError::MalformedRecord)
    } else if !record_of(vault).is_initialized {
        Some(VaultError::UninitializedAccount)
    } else if !user.is_signer {
        Some(VaultError::MissingAuthorization)
    } else if user.key != record_of(vault).owner {
        Some(VaultError::NotOwner)
    } else if now < record_of(vault).unlock_time {
        Some(VaultError::TooEarly)
    } else if amount > record_of(vault).balance {
        Some(VaultError::InsufficientFunds)
    } else if vault.lamports - amount < reserve_floor {
        Some(VaultError::ReserveViolation)
    } else if user.lamports + amount > u64::MAX {
        Some(VaultError::ArithmeticOverflow)
    } else {
        None
    }
}

/// The vault account after `amount` has been credited to its held funds and
/// to its recorded balance (`amount` negative: debited).
pub open spec fn vault_credited(vault: AccountView, amount: int) -> AccountView {
    let record = record_of(vault);
    AccountView {
        lamports: (vault.lamports + amount) as nat,
        data: stored(
            VaultView { balance: (record.balance + amount) as nat, ..record },
            vault.data,
        ),
        ..vault
    }
}

/// The user account after `amount` has been credited to its held funds
/// (`amount` negative: debited).
pub open spec fn user_credited(user: AccountView, amount: int) -> AccountView {
    AccountView { lamports: (user.lamports + amount) as nat, ..user }
}

/// The result of an invocation, given the first precondition it violates:
/// that error, or success where it violates none.
pub open spec fn verdict(failure: Option<VaultError>) -> Result<(), VaultError> {
    match failure {
        Some(error) => Err(error),
        None => Ok(()),
    }
}

/// What one invocation leaves behind: its result and the two accounts.
pub struct Outcome {
    pub result: Result<(), VaultError>,
    pub vault: AccountView,
    pub user: AccountView,
}

/// The outcome of a failed invocation: the error, and both accounts as they
/// were.
pub open spec fn rejected(error: VaultError, vault: AccountView, user: AccountView) -> Outcome {
    Outcome { result: Err(error), vault, user }
}

/// The state machine of the vault: the outcome of applying `instruction` to
/// the two accounts when the clock reads `now` and the vault account must
/// keep `reserve_floor` lamports.
pub open spec fn step(
    instruction: Instruction,
    vault: AccountView,
    user: AccountView,
    now: int,
    reserve_floor: nat,
) -> Outcome {
    match instruction {
        Instruction::Initialize => match initialize_failure(vault) {
            Some(error) => rejected(error, vault, user),
            None => Outcome { result: Ok(()), vault: initialized(vault, user), user },
        },
        Instruction::Deposit { amount } => match deposit_failure(vault, user, amount as nat) {
            Some(error) => rejected(error, vault, user),
            None => Outcome {
                result: Ok(()),
                vault: vault_credited(vault, amount as int),
                user: user_credited(user, -(amount as int)),
            },
        },
        Instruction::Withdraw { amount } => match withdraw_failure(
            vault,
            user,
            amount as nat,
            now,
            reserve_floor,
        ) {
            Some(error) => rejected(error, vault, user),
            None => Outcome {
                result: Ok(()),
                vault: vault_credited(vault, -(amount as int)),
                user: user_credited(user, amount as int),
            },
        },
    }
}

/// Handles Initialize: claims the vault for `user` and starts the lock.
///
/// Fails with `MalformedRecord` when the vault's buffer is shorter than a
/// record and with `AlreadyInitialized` when its record is initialized; the
/// vault is then left as it was. Otherwise the record becomes
/// `fresh_record(user.key)`.
pub fn process_initialize(vault: &mut Account, user: &Account) -> (res: Result<(), VaultError>)
    ensures
        res == verdict(initialize_failure(old(vault)@)),
        res is Ok ==> final(vault)@ == initialized(old(vault)@, user@),
        res is Err ==> *final(vault) == *old(vault),
{
    let record = match Vault::unpack_from_slice(vault.data.as_slice()) {
        Ok(record) => record,
        Err(error) => {
            return Err(error);
        },
    };
    if record.is_initialized() {
        return Err(VaultError::AlreadyInitialized);
    }
    let fresh = Vault { owner: user.key, unlock_time: UNLOCK_TIME, balance: 0, is_initialized: true };
    fresh.pack_into_slice(vault.data.as_mut_slice());
    Ok(())
}

/// Handles Deposit: moves `amount` lamports from `user` into the vault and
/// adds `amount` to the recorded balance.
///
/// Fails with the first of `MalformedRecord`, `UninitializedAccount`,
/// `InsufficientFunds` (the user holds less than `amount`) and
/// `ArithmeticOverflow` that applies, and then leaves both accounts as they
/// were.
pub fn process_deposit(vault: &mut Account, user: &mut Account, amount: u64) -> (res: Result<
    (),
    VaultError,
>)
    ensures
        res == verdict(deposit_failure(old(vault)@, old(user)@, amount as nat)),
        res is Ok ==> {
            &&& final(vault)@ == vault_credited(old(vault)@, amount as int)
            &&& final(user)@ == user_credited(old(user)@, -(amount as int))
        },
        res is Err ==> *final(vault) == *old(vault) && *final(user) == *old(user),
{
    let record = match Vault::unpack_from_slice(vault.data.as_slice()) {
        Ok(record) => record,
        Err(error) => {
            return Err(error);
        },
    };
    if !record.is_initialized() {
        return Err(VaultError::UninitializedAccount);
    }
    if user.lamports < amount {
        return Err(VaultError::InsufficientFunds);
    }
    let held = match vault.lamports.checked_add(amount) {
        Some(held) => held,
        None => {
            return Err(VaultError::ArithmeticOverflow);
        },
    };
    let balance = match record.balance.checked_add(amount) {
        Some(balance) => balance,
        None => {
            return Err(VaultError::ArithmeticOverflow);
        },
    };
    vault.lamports = held;
    user.lamports = user.lamports - amount;
    let updated = Vault { balance, ..record };
    updated.pack_into_slice(vault.data.as_mut_slice());
    Ok(())
}

/// Handles Withdraw: moves `amount` lamports from the vault to `user` and
/// takes `amount` off the recorded balance.
///
/// The preconditions are checked in this order, and the first that fails
/// gives the error: the buffer holds a record (`MalformedRecord`), the
/// record is initialized (`UninitializedAccount`), `user` signed
/// (`MissingAuthorization`), `user` is the owner (`NotOwner`),
/// `unix_timestamp` has reached the unlock time (`TooEarly`), `amount` is
/// within the recorded balance (`InsufficientFunds`), the vault keeps
/// `reserve_floor` lamports (`ReserveViolation`), and the user's held funds
/// stay within 64 bits (`ArithmeticOverflow`). On failure both accounts are
/// left as they were.
pub fn process_withdraw(
    vault: &mut Account,
    user: &mut Account,
    amount: u64,
    unix_timestamp: i64,
    reserve_floor: u64,
) -> (res: Result<(), VaultError>)
    ensures
        res == verdict(
            withdraw_failure(
                old(vault)@,
                old(user)@,
                amount as nat,
                unix_timestamp as int,
                reserve_floor as nat,
            ),
        ),
        res is Ok ==> {
            &&& final(vault)@ == vault_credited(old(vault)@, -(amount as int))
            &&& final(user)@ == user_credited(old(user)@, amount as int)
        },
        res is Err ==> *final(vault) == *old(vault) && *final(user) == *old(user),
{
    let record = match Vault::unpack_from_slice(vault.data.as_slice()) {
        Ok(record) => record,
        Err(error) => {
            return Err(error);
        },
    };
    if !record.is_initialized() {
        return Err(VaultError::UninitializedAccount);
    }
    if !user.is_signer {
        return Err(VaultError::MissingAuthorization);
    }
    if !same_identity(&user.key, &record.owner) {
        return Err(VaultError::NotOwner);
    }
    if unix_timestamp < record.unlock_time {
        return Err(VaultError::TooEarly);
    }
    if amount > record.balance {
        return Err(VaultError::InsufficientFunds);
    }
    if vault.lamports < amount || vault.lamports - amount < reserve_floor {
        return Err(VaultError::ReserveViolation);
    }
    let paid = match user.lamports.checked_add(amount) {
        Some(paid) => paid,
        None => {
            return Err(VaultError::ArithmeticOverflow);
        },
    };
    vault.lamports = vault.lamports - amount;
    user.lamports = paid;
    let updated = Vault { balance: record.balance - amount, ..record };
    updated.pack_into_slice(vault.data.as_mut_slice());
    Ok(())
}

/// The outcome of a whole invocation on an account list whose first two
/// entries are `vault` and `user`: the list must hold two accounts, the
/// buffer must hold an instruction, and then the state machine decides.
pub open spec fn invocation(
    count: nat,
    instruction_data: Seq<u8>,
    vault: AccountView,
    user: AccountView,
    now: int,
    reserve_floor: nat,
) -> Outcome {
    if count < 2 {
        rejected(VaultError::NotEnoughAccountKeys, vault, user)
    } else {
        match parse(instruction_data) {
            None => rejected(VaultError::InvalidInstructionData, vault, user),
            Some(instruction) => step(instruction, vault, user, now, reserve_floor),
        }
    }
}

/// The single entry point of the program.
///
/// `accounts[0]` is the vault account and `accounts[1]` the user account;
/// further accounts are ignored. `instruction_data` holds the opcode and its
/// payload. The host supplies `unix_timestamp`, its clock reading, and
/// `reserve_floor`, the lamports that the vault account must keep for its
/// storage size. The program identity plays no part.
///
/// The result and the two accounts afterwards are those of [`invocation`].
/// On failure the whole account list is left as it was.
pub fn process_instruction(
    _program_id: &[u8; 32],
    accounts: &mut [Account],
    instruction_data: &[u8],
    unix_timestamp: i64,
    reserve_floor: u64,
) -> (res: Result<(), VaultError>)
    ensures
        final(accounts)@.len() == old(accounts)@.len(),
        res is Err ==> final(accounts)@ == old(accounts)@,
        old(accounts)@.len() < 2 ==> res == Err::<(), VaultError>(
            VaultError::NotEnoughAccountKeys,
        ),
        old(accounts)@.len() >= 2 ==> {
            let outcome = invocation(
                old(accounts)@.len(),
                instruction_data@,
                old(accounts)@[0]@,
                old(accounts)@[1]@,
                unix_timestamp as int,
                reserve_floor as nat,
            );
            &&& res == outcome.result
            &&& final(accounts)@[0]@ == outcome.vault
            &&& final(accounts)@[1]@ == outcome.user
            &&& forall|i: int| 2 <= i < old(accounts)@.len() ==> final(accounts)@[i] == old(accounts)@[i]
        },
{
    if accounts.len() < 2 {
        return Err(VaultError::NotEnoughAccountKeys);
    }
    let instruction = match Instruction::unpack(instruction_data) {
        Ok(instruction) => instruction,
        Err(error) => {
            return Err(error);
        },
    };
    let (head, tail) = accounts.split_at_mut(1);
    let ghost head_before = head@;
    let ghost tail_before = tail@;
    let res = match instruction {
        Instruction::Initialize => process_initialize(&mut head[0], &tail[0]),
        Instruction::Deposit { amount } => process_deposit(&mut head[0], &mut tail[0], amount),
        Instruction::Withdraw { amount } => process_withdraw(
            &mut head[0],
            &mut tail[0],
            amount,
            unix_timestamp,
            reserve_floor,
        ),
    };
    proof {
        assert(head_before + tail_before =~= old(accounts)@);
        if res is Err {
            assert(head@ =~= head_before);
            assert(tail@ =~= tail_before);
        }
    }
    res
}

} // verus!
