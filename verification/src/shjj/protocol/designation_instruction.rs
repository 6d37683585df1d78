//! What a registration instructs.
use vstd::prelude::*;

verus! {

/// Designate.
pub const REGISTER: u8 = 0x31;

/// Revoke the designation.
pub const CANCEL: u8 = 0x32;

} // verus!
