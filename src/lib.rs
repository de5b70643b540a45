//! Periodic website monitoring: per-site check state machine, content
//! fingerprints, log line rendering and the rotating log's decisions.

pub mod config;
pub mod fingerprint;
pub mod logger;
pub mod monitor;
pub mod text;
