//! Connection and tool-invocation management for external tool-provider
//! servers: a registry of live connections with idempotent start and stop,
//! normalization and validation of tool schemas, reading of multi-server
//! configuration documents, and aggregation of tool listings across servers.
//!
//! The library takes the decisions; the host that embeds it spawns processes,
//! speaks the wire protocol and hands the outcomes back as plain values.

pub mod catalog;
pub mod config;
pub mod json;
pub mod manager;
pub mod schema;
