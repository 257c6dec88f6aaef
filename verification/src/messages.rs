//! The messages exchanged between agents and the aggregator, as plain values.

use vstd::prelude::*;

verus! {

/// Memory counters reported by one agent, each a byte count.
#[derive(Clone, Copy, PartialEq, Eq, Structural, Debug)]
pub struct Memory {
    pub mem_total: u64,
    pub mem_free: u64,
    pub mem_available: u64,
    pub buffers: u64,
    pub cached: u64,
}

impl Memory {
    /// The value every field defaults to when the host table names no counter.
    pub open spec fn spec_zeroed() -> Memory {
        Memory { mem_total: 0, mem_free: 0, mem_available: 0, buffers: 0, cached: 0 }
    }

    pub fn zeroed() -> (m: Memory)
        ensures
            m == Memory::spec_zeroed(),
    {
        Memory { mem_total: 0, mem_free: 0, mem_available: 0, buffers: 0, cached: 0 }
    }
}

/// A metrics poll carries no payload.
#[derive(Clone, Copy, PartialEq, Eq, Structural, Debug)]
pub struct MetricsRequest {}

/// One agent's answer to a metrics poll. The CPU and network fields are
/// placeholders that the agent does not measure yet.
#[derive(Clone, Debug)]
pub struct MetricsResponse {
    pub host: String,
    pub cpu_usage: u64,
    pub memory: Option<Memory>,
    pub net_usage: u64,
}

/// An agent announcing the port its own metrics endpoint listens on.
/// The aggregator derives the agent's address from the transport itself.
#[derive(Clone, Debug)]
pub struct RegistrationRequest {
    pub port: String,
}

/// The aggregator's acknowledgment of an accepted registration.
#[derive(Clone, Debug)]
pub struct RegistrationResponse {
    pub status: String,
}

} // verus!
