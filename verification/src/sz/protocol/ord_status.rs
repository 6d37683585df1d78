//! Order states as reports carry them.
use vstd::prelude::*;

verus! {

pub const NEW: u8 = 0x30;

pub const PARTIALLY_FILLED: u8 = 0x31;

pub const FILLED: u8 = 0x32;

pub const CANCELLED: u8 = 0x34;

pub const REJECTED: u8 = 0x38;

} // verus!
