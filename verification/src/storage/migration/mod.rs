//! The reversible migration of legacy sessions, memory and user-home files.
//!
//! A plan only reads. Carrying it out never touches a source and never replaces a file, and
//! undoing it removes only what is still as it was written.
pub mod disk;
pub mod facade;
pub mod laws;
pub mod model;
pub mod namespace;
pub mod plan;
pub mod run;
pub mod run_laws;
pub mod validate;
