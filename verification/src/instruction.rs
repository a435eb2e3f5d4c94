//! The instruction format: one opcode byte, then the payload of that opcode.
//!
//! | opcode | instruction | payload                                   |
//! |--------|-------------|-------------------------------------------|
//! | 0      | Initialize  | none                                      |
//! | 1      | Deposit     | amount, 8 bytes little-endian, unsigned   |
//! | 2      | Withdraw    | amount, 8 bytes little-endian, unsigned   |
//!
//! Bytes beyond the payload are ignored.

use crate::error::VaultError;
use crate::le::{le_value, lemma_le_value_bound, lemma_radix_8, read_u64};
use vstd::prelude::*;

verus! {

/// Opcode of Initialize.
pub const OPCODE_INITIALIZE: u8 = 0;

/// Opcode of Deposit.
pub const OPCODE_DEPOSIT: u8 = 1;

/// Opcode of Withdraw.
pub const OPCODE_WITHDRAW: u8 = 2;

/// Offset of the amount within a Deposit or Withdraw instruction.
pub const AMOUNT_OFFSET: usize = 1;

/// Number of bytes a Deposit or Withdraw instruction needs.
pub const TRANSFER_LEN: usize = 9;

/// One request to the vault processor.
#[derive(Clone, Copy, Debug, PartialEq, Eq, Structural)]
pub enum Instruction {
    /// Claim the vault for the user account and start the lock.
    Initialize,
    /// Move `amount` lamports from the user account into the vault.
    Deposit { amount: u64 },
    /// Move `amount` lamports from the vault to its owner.
    Withdraw { amount: u64 },
}

/// The amount that a Deposit or Withdraw instruction carries. Meaningful for
/// buffers of at least nine bytes.
pub open spec fn amount_of(data: Seq<u8>) -> nat
    recommends
        data.len() >= TRANSFER_LEN,
{
    le_value(data.subrange(AMOUNT_OFFSET as int, TRANSFER_LEN as int))
}

/// The instruction that a buffer holds, if it holds one: the buffer is not
/// empty, its first byte is a known opcode, and it is long enough for the
/// payload of that opcode.
pub open spec fn parse(data: Seq<u8>) -> Option<Instruction> {
    if data.len() == 0 {
        None
    } else if data[0] == OPCODE_INITIALIZE {
        Some(Instruction::Initialize)
    } else if data[0] == OPCODE_DEPOSIT && data.len() >= TRANSFER_LEN {
        Some(Instruction::Deposit { amount: amount_of(data) as u64 })
    } else if data[0] == OPCODE_WITHDRAW && data.len() >= TRANSFER_LEN {
        Some(Instruction::Withdraw { amount: amount_of(data) as u64 })
    } else {
        None
    }
}

/// The amount of an instruction always fits in 64 bits.
pub proof fn lemma_amount_fits(data: Seq<u8>)
    requires
        data.len() >= TRANSFER_LEN,
    ensures
        amount_of(data) <= u64::MAX,
{
    lemma_le_value_bound(data.subrange(AMOUNT_OFFSET as int, TRANSFER_LEN as int));
    lemma_radix_8();
}

/// A buffer holds no instruction exactly when it is empty, starts with an
/// unknown opcode, or is cut short within the amount of a Deposit or a
/// Withdraw. An empty payload never makes Initialize invalid.
pub proof fn lemma_parse_rejects(data: Seq<u8>)
    ensures
        parse(data) is None <==> {
            ||| data.len() == 0
            ||| data[0] > OPCODE_WITHDRAW
            ||| data[0] != OPCODE_INITIALIZE && data.len() < TRANSFER_LEN
        },
{
}

impl Instruction {
    /// Reads an instruction from its bytes.
    ///
    /// Fails with [`VaultError::InvalidInstructionData`] exactly when the
    /// buffer holds no instruction.
    pub fn unpack(data: &[u8]) -> (res: Result<Instruction, VaultError>)
        ensures
            res == match parse(data@) {
                Some(instruction) => Ok::<Instruction, VaultError>(instruction),
                None => Err::<Instruction, VaultError>(VaultError::InvalidInstructionData),
            },
    {
        if data.len() == 0 {
            return Err(VaultError::InvalidInstructionData);
        }
        let opcode = data[0];
        if opcode == OPCODE_INITIALIZE {
            Ok(Instruction::Initialize)
        } else if opcode == OPCODE_DEPOSIT && data.len() >= TRANSFER_LEN {
            Ok(Instruction::Deposit { amount: read_u64(data, AMOUNT_OFFSET) })
        } else if opcode == OPCODE_WITHDRAW && data.len() >= TRANSFER_LEN {
            Ok(Instruction::Withdraw { amount: read_u64(data, AMOUNT_OFFSET) })
        } else {
            Err(VaultError::InvalidInstructionData)
        }
    }
}

} // verus!
