//! What the engine tells its observers.
use vstd::prelude::*;

use crate::clock;

verus! {

/// Something that happened in the engine.
#[derive(Debug)]
pub enum EngineEvent {
    /// A line of the log.
    Log {
        /// `info`, `warn` or `error`.
        level: String,
        message: String,
        ts: String,
        /// Empty for an event of the whole engine.
        gateway_id: String,
        /// Empty for an event of a whole gateway.
        platform_id: String,
    },
}

/// A line of the log that was written at `now`.
pub open spec fn is_log(
    e: EngineEvent,
    level: Seq<char>,
    gateway_id: Seq<char>,
    platform_id: Seq<char>,
    msg: Seq<char>,
    now: clock::LocalTime,
) -> bool {
    match e {
        EngineEvent::Log { level: l, message: m, ts, gateway_id: g, platform_id: p } => {
            &&& l@ == level
            &&& m@ == msg
            &&& ts@ == clock::hms_millis_text(now)
            &&& g@ == gateway_id
            &&& p@ == platform_id
        },
    }
}

impl EngineEvent {
    /// A line of the log, written now.
    pub fn log(level: &str, gateway_id: &str, platform_id: &str, message: String) -> (r: Self)
        ensures
            exists|now: clock::LocalTime|
                now.wf() && is_log(r, level@, gateway_id@, platform_id@, message@, now),
    {
        let now = clock::local_now();
        let r = Self::log_at(level, gateway_id, platform_id, message, &now);
        assert(now.wf() && is_log(r, level@, gateway_id@, platform_id@, message@, now));
        r
    }

    /// A line of the log, written at `now`.
    pub fn log_at(
        level: &str,
        gateway_id: &str,
        platform_id: &str,
        message: String,
        now: &clock::LocalTime,
    ) -> (r: Self)
        requires
            now.wf(),
        ensures
            is_log(r, level@, gateway_id@, platform_id@, message@, *now),
    {
        EngineEvent::Log {
            level: level.to_owned(),
            message,
            ts: clock::hms_millis(now),
            gateway_id: gateway_id.to_owned(),
            platform_id: platform_id.to_owned(),
        }
    }
}

/// A connection as it is shown.
#[derive(Debug)]
pub struct ConnInfo {
    pub id: u64,
    pub peer: String,
    /// The sender of the logon; empty before it.
    pub comp_id: String,
    pub logged_on: bool,
    pub since: String,
}

impl Clone for ConnInfo {
    fn clone(&self) -> (r: Self)
        ensures
            r == *self,
    {
        ConnInfo {
            id: self.id,
            peer: self.peer.clone(),
            comp_id: self.comp_id.clone(),
            logged_on: self.logged_on,
            since: self.since.clone(),
        }
    }
}

} // verus!
