//! Collects named, timed events while a request is handled and renders them
//! as a `server-timing` response header.

pub mod header;
pub mod laws;
pub mod log;
pub mod timing;

pub use log::ServerTimings;
pub use timing::Timing;
