//! Host-approved, transactional patch application: grammar, hunks, plans and rollback.
pub mod apply;
pub mod error;
pub mod hunks;
pub mod laws;
pub mod parse;
pub mod plan;
pub mod plugin;
