//! Shell commands that a host has approved: which are run, and what they give back.
pub mod error;
pub mod executor;
pub mod laws;
pub mod plugin;
