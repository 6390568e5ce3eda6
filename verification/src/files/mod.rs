//! Reading and searching the files of a workspace.
pub mod error;
pub mod executor;
pub mod plugin;
