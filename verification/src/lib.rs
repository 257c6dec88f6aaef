//! A small fleet-monitoring library: agents on many hosts report memory
//! metrics to one aggregator, which a dashboard polls for a live view.
//!
//! The verified core covers the discovery and fan-out protocol: port
//! validation, the agent's bounded-retry bootstrap state machine, the
//! aggregator's registry of reverse connections, the fan-out poll with
//! per-agent failure isolation, and the host memory-table parser.
//! Network transport, file reads and HTML rendering live outside the
//! library and hand it plain values.

pub mod bootstrap;
pub mod collector_config;
pub mod collector_service;
pub mod dashboard;
pub mod meminfo;
pub mod messages;
pub mod registry;
pub mod web_config;
