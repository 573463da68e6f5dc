//! Instructions addressed to a program, with the accounts they use.

use crate::address::Address;
use vstd::prelude::*;

verus! {

/// Describes a single account read or written by a program during
/// instruction execution.
#[derive(Clone, Copy, Debug, PartialEq, Eq)]
pub struct AccountMeta {
    /// The account's address.
    pub pubkey: Address,
    /// True if the instruction requires a signature for this account.
    pub is_signer: bool,
    /// True if the account data or metadata may be mutated during program
    /// execution.
    pub is_writable: bool,
}

impl AccountMeta {
    /// Metadata for a writable account.
    pub fn new(pubkey: Address, is_signer: bool) -> (m: AccountMeta)
        ensures
            m == (AccountMeta { pubkey, is_signer, is_writable: true }),
    {
        AccountMeta { pubkey, is_signer, is_writable: true }
    }

    /// Metadata for a read-only account.
    pub fn new_readonly(pubkey: Address, is_signer: bool) -> (m: AccountMeta)
        ensures
            m == (AccountMeta { pubkey, is_signer, is_writable: false }),
    {
        AccountMeta { pubkey, is_signer, is_writable: false }
    }
}

/// A directive for a single invocation of a program.
#[derive(Clone, Debug, PartialEq, Eq)]
pub struct Instruction {
    /// Address of the program that executes this instruction.
    pub program_id: Address,
    /// Metadata describing accounts that should be passed to the program.
    pub accounts: Vec<AccountMeta>,
    /// Data passed to the program for its own interpretation.
    pub data: Vec<u8>,
}

} // verus!
