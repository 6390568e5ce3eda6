//! Skills: their configuration, how they are found, and the actions they declare.
pub mod action;
pub mod config;
pub mod context;
pub mod discovery;
pub mod document;
pub mod error;
pub mod laws;
pub mod plugin;
pub mod rule_laws;
