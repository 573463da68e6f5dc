//! Verified interface for token-metadata instructions: the data layout of
//! each instruction, how it is packed into bytes and unpacked from them, and
//! the account lists of the instruction builders.

use vstd::prelude::*;

pub mod account;
pub mod address;
pub mod error;
pub mod instruction;
pub mod laws;
pub mod state;
pub mod wire;

verus! {

/// Namespace for all programs implementing token-metadata
pub const NAMESPACE: &'static str = "spl_token_metadata_interface";

} // verus!
