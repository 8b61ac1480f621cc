//! Codec for the binary telemetry and control protocol of a portable power
//! station.  Inbound notification buffers are split into separator-delimited
//! records, each record is checksum-validated and decoded into a typed
//! update, updates can be folded into a complete device snapshot, and
//! outgoing command payloads are framed and checksummed for transmission.

pub mod args;
pub mod checksum;
pub mod device_info;
pub mod notification;
pub mod request;

pub use checksum::checksum;
