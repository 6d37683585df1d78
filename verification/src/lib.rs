//! A simulated exchange gateway: the binary interfaces of the exchanges, the sessions
//! with order management systems, and the reports that a configured strategy makes up.
use vstd::prelude::*;

pub mod api;
pub mod capture;
pub mod clock;
pub mod config;
pub mod engine;
pub mod event;
pub mod fills;
pub mod layout;
pub mod manual;
pub mod note;
pub mod operation;
pub mod oplog;
pub mod orderbook;
pub mod report;
pub mod restart;
pub mod rng;
pub mod server;
pub mod shjj;
pub mod stats;
pub mod step;
pub mod sz;
pub mod text;
pub mod update;
pub mod wire;

verus! {

} // verus!
