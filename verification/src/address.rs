//! Account and contract addresses.
use vstd::prelude::*;

verus! {

/// An address on the ledger: an account key or a contract id, 32 bytes held
/// as two 128-bit halves (big-endian).
#[derive(Clone, Copy, Debug, PartialEq, Eq, Structural)]
pub struct Address {
    pub is_contract: bool,
    pub key_high: u128,
    pub key_low: u128,
}

} // verus!
