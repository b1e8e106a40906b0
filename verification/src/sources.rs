//! Sources of monitor definitions.

pub mod caddy_config;
pub mod caddy_source;
