//! Bounded proactive scheduling: the policy, the local templates and the tick facade.
pub mod laws;
pub mod plugin;
pub mod policy;
pub mod sink;
pub mod template;
pub mod worker;
