//! Utilities shared by the agent and core services:
//!
//! * plain data models describing agents, datastores and shards;
//! * a graceful-shutdown coordinator that multiplexes worker threads and
//!   OS signals (`upkeep`);
//! * helpers to snapshot, format and log chains of errors (`failure`);
//! * random 128-bit identifiers with a verified hex codec (`rndid`);
//! * logging and tracing configuration with a verified level filter.
pub mod actions;
pub mod failure;
pub mod logging;
pub mod metrics;
pub mod models;
pub mod rndid;
pub mod tracing;
pub mod upkeep;
pub mod web;
