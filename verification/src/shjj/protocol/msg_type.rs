//! Message types of the Shanghai exchange.
use vstd::prelude::*;

verus! {

pub const LOGON: u32 = 40;

pub const LOGOUT: u32 = 41;

pub const HEARTBEAT: u32 = 33;

pub const NEW_ORDER: u32 = 58;

pub const CANCEL_ORDER: u32 = 61;

pub const EXEC_RPT: u32 = 32;

pub const CANCEL_REJECT: u32 = 59;

pub const TRADE: u32 = 103;

pub const ORDER_REJECT: u32 = 204;

pub const EXEC_RPT_SYNC: u32 = 206;

pub const EXEC_RPT_SYNC_RSP: u32 = 207;

pub const EXEC_RPT_INFO: u32 = 208;

pub const PLATFORM_STATE: u32 = 209;

pub const EXEC_RPT_EOS: u32 = 210;

pub const REGISTRATION: u32 = 301;

pub const REGISTRATION_RPT: u32 = 302;

pub const PWD_SERVICE: u32 = 306;

pub const PWD_SERVICE_RSP: u32 = 308;

} // verus!
