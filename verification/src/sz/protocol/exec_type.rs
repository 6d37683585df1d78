//! Execution types: what a report tells.
use vstd::prelude::*;

verus! {

/// The order was accepted.
pub const NEW: u8 = 0x30;

/// The order was cancelled.
pub const CANCELLED: u8 = 0x34;

/// The order was rejected.
pub const REJECT: u8 = 0x38;

/// The order was executed.
pub const TRADE: u8 = 0x46;

} // verus!
