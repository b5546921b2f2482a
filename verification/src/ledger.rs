//! The ledger state an invocation runs against.

use vstd::prelude::*;

verus! {

/// The ledger state an invocation runs against, as the host reports it.
#[derive(Clone, Copy, Debug, PartialEq, Eq)]
pub struct Ledger {
    /// Current ledger sequence number.
    pub sequence: u32,
    /// Current ledger close time, in seconds.
    pub timestamp: u64,
}

} // verus!
