//! What holds of the vault whatever the accounts, the instructions and the
//! host's clock are.
//!
//! The executable processor is proved to behave as the state machine
//! [`step`](crate::processor::step) does; the laws here are about that state
//! machine.

use crate::account::AccountView;
use crate::error::VaultError;
use crate::instruction::Instruction;
use crate::processor::{
    deposit_failure, fresh_record, initialize_failure, record_of, step, withdraw_failure, Outcome,
    UNLOCK_TIME,
};
use crate::vault::{lemma_decode_valid, lemma_stored, VaultView, RECORD_LEN};
use vstd::prelude::*;

verus! {

/// The vault account holds a record, and that record is initialized.
pub open spec fn holds_initialized_record(vault: AccountView) -> bool {
    vault.data.len() >= RECORD_LEN && record_of(vault).is_initialized
}

/// The vault account holds at least its recorded balance on top of the
/// reserve floor.
pub open spec fn solvent(vault: AccountView, reserve_floor: nat) -> bool {
    vault.data.len() >= RECORD_LEN && record_of(vault).balance + reserve_floor <= vault.lamports
}

/// The sum of a list of amounts.
pub open spec fn total(amounts: Seq<u64>) -> nat
    decreases amounts.len(),
{
    if amounts.len() == 0 {
        0
    } else {
        total(amounts.drop_last()) + amounts.last() as nat
    }
}

/// The outcome of depositing `amounts` one after the other; the first
/// deposit that fails ends the run with its error.
pub open spec fn deposits(vault: AccountView, user: AccountView, amounts: Seq<u64>) -> Outcome
    decreases amounts.len(),
{
    if amounts.len() == 0 {
        Outcome { result: Ok(()), vault, user }
    } else {
        let prior = deposits(vault, user, amounts.drop_last());
        if prior.result is Err {
            prior
        } else {
            step(Instruction::Deposit { amount: amounts.last() }, prior.vault, prior.user, 0, 0)
        }
    }
}

/// A failed invocation changes nothing.
pub proof fn lemma_failure_changes_nothing(
    instruction: Instruction,
    vault: AccountView,
    user: AccountView,
    now: int,
    reserve_floor: nat,
)
    requires
        step(instruction, vault, user, now, reserve_floor).result is Err,
    ensures
        step(instruction, vault, user, now, reserve_floor).vault == vault,
        step(instruction, vault, user, now, reserve_floor).user == user,
{
}

/// The processor never changes an identity, a signer flag or the length of
/// a buffer, and it never touches the user's buffer.
pub proof fn lemma_frame(
    instruction: Instruction,
    vault: AccountView,
    user: AccountView,
    now: int,
    reserve_floor: nat,
)
    requires
        user.valid(),
    ensures
        ({
            let after = step(instruction, vault, user, now, reserve_floor);
            &&& after.vault.key == vault.key
            &&& after.vault.is_signer == vault.is_signer
            &&& after.vault.data.len() == vault.data.len()
            &&& after.user.key == user.key
            &&& after.user.is_signer == user.is_signer
            &&& after.user.data == user.data
        }),
{
    let after = step(instruction, vault, user, now, reserve_floor);
    if after.result is Ok {
        let record = record_of(vault);
        lemma_decode_valid(vault.data);
        match instruction {
            Instruction::Initialize => {
                lemma_stored(fresh_record(user.key), vault.data);
            },
            Instruction::Deposit { amount } => {
                lemma_stored(
                    VaultView { balance: (record.balance + amount) as nat, ..record },
                    vault.data,
                );
            },
            Instruction::Withdraw { amount } => {
                lemma_stored(
                    VaultView { balance: (record.balance - amount) as nat, ..record },
                    vault.data,
                );
            },
        }
    }
}

/// Lamports are moved, never made or lost: the two accounts hold as much
/// after an invocation as before.
pub proof fn lemma_funds_conserved(
    instruction: Instruction,
    vault: AccountView,
    user: AccountView,
    now: int,
    reserve_floor: nat,
)
    ensures
        ({
            let after = step(instruction, vault, user, now, reserve_floor);
            after.vault.lamports + after.user.lamports == vault.lamports + user.lamports
        }),
{
}

/// What Initialize writes: the caller as owner, the fixed unlock time, no
/// balance, and a record that counts as initialized. The vault's held funds
/// stay as they are.
pub proof fn lemma_initialize_effect(vault: AccountView, user: AccountView)
    requires
        user.valid(),
        initialize_failure(vault) is None,
    ensures
        ({
            let after = step(Instruction::Initialize, vault, user, 0, 0);
            &&& after.result is Ok
            &&& record_of(after.vault) == fresh_record(user.key)
            &&& after.vault.lamports == vault.lamports
            &&& after.user == user
        }),
{
    lemma_stored(fresh_record(user.key), vault.data);
}

/// After one Initialize has succeeded, a second one by any caller fails with `AlreadyInitialized`, and the owner and the
/// unlock time stay as the first call set them.
pub proof fn lemma_initialize_exactly_once(
    vault: AccountView,
    first: AccountView,
    second: AccountView,
)
    requires
        first.valid(),
        step(Instruction::Initialize, vault, first, 0, 0).result is Ok,
    ensures
        ({
            let once = step(Instruction::Initialize, vault, first, 0, 0);
            let twice = step(Instruction::Initialize, once.vault, second, 0, 0);
            &&& twice.result == Err::<(), VaultError>(VaultError::AlreadyInitialized)
            &&& twice.vault == once.vault
            &&& record_of(twice.vault).owner == first.key
            &&& record_of(twice.vault).unlock_time == UNLOCK_TIME
        }),
{
    lemma_stored(fresh_record(first.key), vault.data);
}

/// Once a record is initialized it stays so, and no instruction changes its
/// owner or its unlock time.
pub proof fn lemma_owner_and_unlock_time_fixed(
    instruction: Instruction,
    vault: AccountView,
    user: AccountView,
    now: int,
    reserve_floor: nat,
)
    requires
        holds_initialized_record(vault),
    ensures
        ({
            let after = step(instruction, vault, user, now, reserve_floor).vault;
            &&& holds_initialized_record(after)
            &&& record_of(after).owner == record_of(vault).owner
            &&& record_of(after).unlock_time == record_of(vault).unlock_time
        }),
{
    let outcome = step(instruction, vault, user, now, reserve_floor);
    let record = record_of(vault);
    lemma_decode_valid(vault.data);
    match instruction {
        Instruction::Initialize => {},
        Instruction::Deposit { amount } => {
            if outcome.result is Ok {
                lemma_stored(
                    VaultView { balance: (record.balance + amount) as nat, ..record },
                    vault.data,
                );
            }
        },
        Instruction::Withdraw { amount } => {
            if outcome.result is Ok {
                lemma_stored(
                    VaultView { balance: (record.balance - amount) as nat, ..record },
                    vault.data,
                );
            }
        },
    }
}

/// Deposit succeeds only on an initialized record, from a user who holds
/// the amount.
pub proof fn lemma_deposit_only_when_permitted(
    vault: AccountView,
    user: AccountView,
    amount: u64,
    now: int,
    reserve_floor: nat,
)
    requires
        step(Instruction::Deposit { amount }, vault, user, now, reserve_floor).result is Ok,
    ensures
        holds_initialized_record(vault),
        user.lamports >= amount,
{
}

/// The processor never reports `BufferTooSmall`: a buffer from which a
/// record was read has room for the record written back.
pub proof fn lemma_never_buffer_too_small(
    instruction: Instruction,
    vault: AccountView,
    user: AccountView,
    now: int,
    reserve_floor: nat,
)
    ensures
        step(instruction, vault, user, now, reserve_floor).result != Err::<(), VaultError>(
            VaultError::BufferTooSmall,
        ),
{
}

/// What a successful Deposit does: the amount leaves the user's held funds
/// and arrives in the vault's held funds and in its recorded balance.
pub proof fn lemma_deposit_effect(vault: AccountView, user: AccountView, amount: u64)
    requires
        deposit_failure(vault, user, amount as nat) is None,
    ensures
        ({
            let after = step(Instruction::Deposit { amount }, vault, user, 0, 0);
            &&& after.result is Ok
            &&& record_of(after.vault).balance == record_of(vault).balance + amount
            &&& after.vault.lamports == vault.lamports + amount
            &&& after.user.lamports == user.lamports - amount
        }),
{
    let record = record_of(vault);
    lemma_decode_valid(vault.data);
    lemma_stored(VaultView { balance: (record.balance + amount) as nat, ..record }, vault.data);
}

/// What a successful Withdraw does: the amount leaves the vault's held
/// funds and its recorded balance, and arrives in the owner's held funds.
/// The vault keeps its reserve floor.
pub proof fn lemma_withdraw_effect(
    vault: AccountView,
    user: AccountView,
    amount: u64,
    now: int,
    reserve_floor: nat,
)
    requires
        withdraw_failure(vault, user, amount as nat, now, reserve_floor) is None,
    ensures
        ({
            let after = step(Instruction::Withdraw { amount }, vault, user, now, reserve_floor);
            &&& after.result is Ok
            &&& record_of(after.vault).balance == record_of(vault).balance - amount
            &&& after.vault.lamports == vault.lamports - amount
            &&& after.user.lamports == user.lamports + amount
            &&& after.vault.lamports >= reserve_floor
        }),
{
    let record = record_of(vault);
    lemma_decode_valid(vault.data);
    lemma_stored(VaultView { balance: (record.balance - amount) as nat, ..record }, vault.data);
}

/// When every deposit of a run succeeds, the recorded
/// balance and the vault's held funds have both grown by the sum of the
/// amounts, and the user's held funds have shrunk by it.
pub proof fn lemma_deposits_add_up(vault: AccountView, user: AccountView, amounts: Seq<u64>)
    requires
        vault.data.len() >= RECORD_LEN,
        deposits(vault, user, amounts).result is Ok,
    ensures
        ({
            let after = deposits(vault, user, amounts);
            &&& after.vault.data.len() == vault.data.len()
            &&& record_of(after.vault).balance == record_of(vault).balance + total(amounts)
            &&& after.vault.lamports == vault.lamports + total(amounts)
            &&& after.user.lamports == user.lamports - total(amounts)
        }),
    decreases amounts.len(),
{
    if amounts.len() > 0 {
        let prior = deposits(vault, user, amounts.drop_last());
        lemma_deposits_add_up(vault, user, amounts.drop_last());
        lemma_deposit_effect(prior.vault, prior.user, amounts.last());
        let record = record_of(prior.vault);
        lemma_decode_valid(prior.vault.data);
        lemma_stored(
            VaultView { balance: (record.balance + amounts.last()) as nat, ..record },
            prior.vault.data,
        );
    }
}

/// After Initialize and a run of successful deposits, the recorded balance
/// is the sum of the amounts deposited.
pub proof fn lemma_balance_is_sum_of_deposits(
    vault: AccountView,
    owner: AccountView,
    user: AccountView,
    amounts: Seq<u64>,
)
    requires
        owner.valid(),
        step(Instruction::Initialize, vault, owner, 0, 0).result is Ok,
        deposits(step(Instruction::Initialize, vault, owner, 0, 0).vault, user, amounts).result
            is Ok,
    ensures
        ({
            let opened = step(Instruction::Initialize, vault, owner, 0, 0).vault;
            let after = deposits(opened, user, amounts);
            &&& record_of(after.vault).balance == total(amounts)
            &&& after.vault.lamports == vault.lamports + total(amounts)
        }),
{
    let opened = step(Instruction::Initialize, vault, owner, 0, 0).vault;
    lemma_initialize_effect(vault, owner);
    lemma_stored(fresh_record(owner.key), vault.data);
    lemma_deposits_add_up(opened, user, amounts);
}

/// Withdraw succeeds only when the record is initialized, the caller signed
/// and is the owner, the unlock time has been reached, the amount is within
/// the recorded balance and the vault keeps its reserve floor.
pub proof fn lemma_withdraw_only_when_permitted(
    vault: AccountView,
    user: AccountView,
    amount: u64,
    now: int,
    reserve_floor: nat,
)
    requires
        step(Instruction::Withdraw { amount }, vault, user, now, reserve_floor).result is Ok,
    ensures
        holds_initialized_record(vault),
        user.is_signer,
        user.key == record_of(vault).owner,
        now >= record_of(vault).unlock_time,
        amount <= record_of(vault).balance,
        vault.lamports - amount >= reserve_floor,
{
}

/// Before the unlock time every Withdraw fails and leaves
/// the balance and the held funds as they were. The error is `TooEarly`
/// whenever the record is initialized and its owner signed.
pub proof fn lemma_withdraw_before_unlock_time(
    vault: AccountView,
    user: AccountView,
    amount: u64,
    now: int,
    reserve_floor: nat,
)
    requires
        vault.data.len() >= RECORD_LEN,
        now < record_of(vault).unlock_time,
    ensures
        ({
            let after = step(Instruction::Withdraw { amount }, vault, user, now, reserve_floor);
            &&& after.result is Err
            &&& after.vault == vault
            &&& after.user == user
            &&& record_of(vault).is_initialized && user.is_signer && user.key == record_of(
                vault,
            ).owner ==> after.result == Err::<(), VaultError>(VaultError::TooEarly)
        }),
{
}

/// A Withdraw on an initialized vault by a caller
/// who did not sign fails with `MissingAuthorization` and changes nothing.
pub proof fn lemma_withdraw_unsigned(
    vault: AccountView,
    user: AccountView,
    amount: u64,
    now: int,
    reserve_floor: nat,
)
    requires
        holds_initialized_record(vault),
        !user.is_signer,
    ensures
        step(Instruction::Withdraw { amount }, vault, user, now, reserve_floor) == (Outcome {
            result: Err(VaultError::MissingAuthorization),
            vault,
            user,
        }),
{
}

/// A Withdraw on an initialized vault by a signer who
/// is not its owner fails with `NotOwner` and changes nothing.
pub proof fn lemma_withdraw_by_stranger(
    vault: AccountView,
    user: AccountView,
    amount: u64,
    now: int,
    reserve_floor: nat,
)
    requires
        holds_initialized_record(vault),
        user.is_signer,
        user.key != record_of(vault).owner,
    ensures
        step(Instruction::Withdraw { amount }, vault, user, now, reserve_floor) == (Outcome {
            result: Err(VaultError::NotOwner),
            vault,
            user,
        }),
{
}

/// Once the unlock time has come, a Withdraw by the
/// signing owner of more than the recorded balance fails with
/// `InsufficientFunds` and changes nothing.
pub proof fn lemma_withdraw_beyond_balance(
    vault: AccountView,
    user: AccountView,
    amount: u64,
    now: int,
    reserve_floor: nat,
)
    requires
        holds_initialized_record(vault),
        user.is_signer,
        user.key == record_of(vault).owner,
        now >= record_of(vault).unlock_time,
        amount > record_of(vault).balance,
    ensures
        step(Instruction::Withdraw { amount }, vault, user, now, reserve_floor) == (Outcome {
            result: Err(VaultError::InsufficientFunds),
            vault,
            user,
        }),
{
}

/// A Withdraw that passes every earlier check and would leave
/// the vault with less than its reserve floor fails with `ReserveViolation`
/// and changes nothing.
pub proof fn lemma_withdraw_below_reserve(
    vault: AccountView,
    user: AccountView,
    amount: u64,
    now: int,
    reserve_floor: nat,
)
    requires
        holds_initialized_record(vault),
        user.is_signer,
        user.key == record_of(vault).owner,
        now >= record_of(vault).unlock_time,
        amount <= record_of(vault).balance,
        vault.lamports - amount < reserve_floor,
    ensures
        step(Instruction::Withdraw { amount }, vault, user, now, reserve_floor) == (Outcome {
            result: Err(VaultError::ReserveViolation),
            vault,
            user,
        }),
{
}

/// No instruction takes the vault's held funds below a reserve floor that
/// they met before.
pub proof fn lemma_reserve_kept(
    instruction: Instruction,
    vault: AccountView,
    user: AccountView,
    now: int,
    reserve_floor: nat,
)
    requires
        vault.lamports >= reserve_floor,
    ensures
        step(instruction, vault, user, now, reserve_floor).vault.lamports >= reserve_floor,
{
}

/// A solvent vault stays solvent: if the held funds cover the recorded
/// balance on top of the reserve floor before an invocation, they do so
/// after it.
pub proof fn lemma_solvency_kept(
    instruction: Instruction,
    vault: AccountView,
    user: AccountView,
    now: int,
    reserve_floor: nat,
)
    requires
        user.valid(),
        solvent(vault, reserve_floor),
    ensures
        solvent(step(instruction, vault, user, now, reserve_floor).vault, reserve_floor),
{
    let outcome = step(instruction, vault, user, now, reserve_floor);
    if outcome.result is Ok {
        match instruction {
            Instruction::Initialize => {
                lemma_initialize_effect(vault, user);
                lemma_stored(fresh_record(user.key), vault.data);
            },
            Instruction::Deposit { amount } => {
                lemma_deposit_effect(vault, user, amount);
                lemma_frame(instruction, vault, user, now, reserve_floor);
            },
            Instruction::Withdraw { amount } => {
                lemma_withdraw_effect(vault, user, amount, now, reserve_floor);
                lemma_frame(instruction, vault, user, now, reserve_floor);
            },
        }
    }
}

} // verus!
