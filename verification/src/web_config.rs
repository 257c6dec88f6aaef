//! The aggregator's listener configuration, built from plain values that the
//! process edge supplies.

use vstd::prelude::*;

verus! {

/// Where the registration endpoint listens for agents.
pub struct GRPCConfig {
    pub host: String,
    pub port: String,
}

/// Where the dashboard endpoint listens for browsers.
pub struct WebConfig {
    pub host: String,
    pub port: String,
}

/// The aggregator's full configuration.
pub struct Config {
    pub grpc: GRPCConfig,
    pub web: WebConfig,
}

impl Config {
    pub fn new(grpc: GRPCConfig, web: WebConfig) -> (c: Config)
        ensures
            c.grpc == grpc,
            c.web == web,
    {
        Config { grpc, web }
    }
}

} // verus!
