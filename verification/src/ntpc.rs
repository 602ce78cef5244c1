//! The time source: what its answer means, and the local time that goes
//! into a query.

use crate::clock::MICROS_PER_SECOND;
use vstd::prelude::*;

verus! {

/// UDP port of the time service.
pub const NTP_PORT: u16 = 123;

/// Seconds after which a query is given up.
pub const QUERY_TIMEOUT_SECS: u64 = 5;

/// The local time stamped on a query, in microseconds.
#[derive(Clone, Copy, Debug, PartialEq, Eq, Structural)]
pub struct Timestamp {
    pub current_time_us: u64,
}

impl Timestamp {
    /// Starts the stamp over at zero.
    pub fn init(&mut self)
        ensures
            final(self).current_time_us == 0,
    {
        self.current_time_us = 0;
    }

    /// Whole seconds of the stamp.
    pub fn timestamp_sec(&self) -> (seconds: u64)
        ensures
            seconds == self.current_time_us / MICROS_PER_SECOND,
    {
        self.current_time_us / MICROS_PER_SECOND
    }

    /// Microseconds of the stamp beyond its whole seconds.
    pub fn timestamp_subsec_micros(&self) -> (micros: u32)
        ensures
            micros == self.current_time_us % MICROS_PER_SECOND,
            (self.current_time_us / MICROS_PER_SECOND) * MICROS_PER_SECOND + micros
                == self.current_time_us,
    {
        (self.current_time_us % MICROS_PER_SECOND) as u32
    }
}

/// How a query to the time source ended.
#[derive(Clone, Copy, Debug, PartialEq, Eq, Structural)]
pub enum Probe {
    /// The service answered with this many seconds since the Unix epoch.
    Answered(u32),
    /// The query failed.
    Failed,
    /// No answer came within `QUERY_TIMEOUT_SECS`.
    TimedOut,
}

/// The time that a query gave, in whole seconds since the Unix epoch: that
/// of the answer, and none where the query failed or timed out.
pub fn time_of(probe: Probe) -> (time: Option<u64>)
    ensures
        time == match probe {
            Probe::Answered(seconds) => Some(seconds as u64),
            Probe::Failed => None,
            Probe::TimedOut => None,
        },
{
    match probe {
        Probe::Answered(seconds) => Some(seconds as u64),
        _ => None,
    }
}

} // verus!
