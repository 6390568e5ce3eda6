//! Workspace-scoped persistent sessions, the legacy event log and the migration from it.
pub mod event_import;
pub mod event_laws;
pub mod event_log;
pub mod events;
pub mod import_laws;
pub mod listing;
pub mod memory;
pub mod memory_file;
pub mod memory_laws;
pub mod migration;
pub mod plugin;
pub mod record;
pub mod store;
