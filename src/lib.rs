//! Latency measurement for a stream of market-data events: field extraction
//! from event payloads, clock calibration against a remote time authority,
//! monotonic-to-epoch conversion, streaming latency statistics, the
//! per-payload measurement step and the record log format.

pub mod extract;
pub mod stats;
pub mod epoch;
pub mod calibration;
pub mod pipeline;
pub mod record;
pub mod placement;
