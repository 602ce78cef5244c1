//! Decoding and publish arbitration for an on-off-keyed temperature and
//! humidity sensor gateway.
//!
//! The crate turns pulse timings captured by a receive peripheral into
//! readings, decides when a reading is stable enough to be reported, and
//! prepares the report. Everything that touches hardware or the network is
//! left to the caller, which feeds events in and carries actions out.

pub mod arbiter;
pub mod clock;
pub mod decoder;
pub mod mqtt;
pub mod ntpc;
pub mod pulse;
pub mod reading;
pub mod report;
pub mod text;
pub mod wifi;
