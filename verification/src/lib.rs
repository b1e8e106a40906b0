//! Derives uptime-monitor definitions from the live routing configuration of a
//! Caddy reverse proxy.
//!
//! The crate holds the pure core of the adapter: the configuration model, the
//! extraction of the canonical host list, and the derivation of one monitor
//! draft per host. Retrieving the configuration document and rendering the
//! drafts into entities is left to the caller.

pub mod config;
pub mod entity;
pub mod error;
pub mod host_set;
pub mod sources;
pub mod text;
