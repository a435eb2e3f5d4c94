//! A time-locked vault: an account accepts deposits of lamports and releases
//! them to its owner once a fixed unlock time has passed.
//!
//! The crate holds the persisted record and its byte layout, the instruction
//! format, and the processor that applies one instruction to a vault account
//! and a user account. The host supplies the clock reading and the reserve
//! floor of the vault account; everything else is decided here.

pub mod account;
pub mod error;
pub mod instruction;
pub mod laws;
pub mod le;
pub mod processor;
pub mod vault;

pub use account::Account;
pub use error::VaultError;
pub use instruction::Instruction;
pub use processor::{
    process_deposit, process_initialize, process_instruction, process_withdraw, UNLOCK_TIME,
};
pub use vault::{Vault, RECORD_LEN};
