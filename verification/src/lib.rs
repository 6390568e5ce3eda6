//! The verified core of the YunXi Next capability plugins.
//!
//! Every plugin of the host is a process of its own around a part of this library: stored
//! sessions and their migration, settings, secrets, the proactive scheduler, and the tools that
//! read files, run shell commands, apply patches, tell of skills and bridge to an MCP server.
//! What a plugin reads, writes, runs or sends is not done here; what it decides is.
pub mod big_endian;
pub mod bounded_output;
pub mod files;
pub mod fingerprint;
pub mod grants;
pub mod json;
pub mod mcp;
pub mod patch;
pub mod paths;
pub mod plugin;
pub mod replacement;
pub mod scheduler;
pub mod secret_broker;
pub mod settings;
pub mod shell;
pub mod skills;
pub mod storage;
pub mod text;
pub mod text_map;
pub mod text_sort;
