//! What every capability plugin does with the messages of its host.
pub mod dispatch;
pub mod requirement;
