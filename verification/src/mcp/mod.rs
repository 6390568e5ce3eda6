//! The bridge to one external MCP server: its configuration, its messages and its transport.
pub mod client_error;
pub mod config;
pub mod config_env;
pub mod config_error;
pub mod config_rules;
pub mod fixture;
pub mod http;
pub mod laws;
pub mod plugin;
pub mod redact;
pub mod rpc;
