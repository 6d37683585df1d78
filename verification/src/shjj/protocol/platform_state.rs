//! Platform states.
use vstd::prelude::*;

verus! {

pub const NOT_OPEN: u16 = 0;

pub const PRE_OPEN: u16 = 1;

/// Orders are taken.
pub const OPEN: u16 = 2;

pub const BREAK: u16 = 3;

pub const CLOSE: u16 = 4;

} // verus!
