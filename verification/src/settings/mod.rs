//! Bounded capability settings: keys, defaults, revisions and plugin switches.
pub mod capabilities;
pub mod error;
pub mod laws;
pub mod sections;
pub mod store;
