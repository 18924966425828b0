//! Core of a GeoIP lookup service: the archive lifecycle and hot-swap
//! subsystem, the timezone table builder, and the status/lookup facade.
//!
//! File names, byte strings and zone identifiers are handled as byte vectors;
//! the thin I/O shell around this crate converts at its edges.

pub mod auth;
pub mod clock;
pub mod config;
pub mod download;
pub mod errors;
pub mod gc;
pub mod geoip;
pub mod mmdb;
pub mod names;
pub mod pool;
pub mod store;
pub mod time;
pub mod tz;

pub use time::UtcTime;
