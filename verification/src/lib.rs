//! Discovery and ranking of reachable UDP endpoints.
//!
//! The library generates candidate endpoints from fixed address blocks,
//! aggregates per-endpoint probe attempts into latency scores, bounds the
//! number of endpoints probed at once, and ranks the surviving endpoints by
//! average latency.

use vstd::prelude::*;

pub mod pool;
pub mod probe;
pub mod rank;
pub mod sched;

verus! {

/// A candidate endpoint under test: an IPv4 address (as its 32-bit value)
/// and a UDP port.
#[derive(Clone, Copy, PartialEq, Eq, Structural, Debug)]
pub struct Endpoint {
    pub ip: u32,
    pub port: u16,
}

/// An endpoint's aggregated result: the integer-truncated mean latency, in
/// milliseconds, over its successful probe attempts.
#[derive(Clone, Copy, PartialEq, Eq, Structural, Debug)]
pub struct EndpointScore {
    pub endpoint: Endpoint,
    pub average_latency: u64,
}

} // verus!
