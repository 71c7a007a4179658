//! Verified core of a paced, multi-worker block-device write benchmark.

pub mod barrier;
pub mod config;
pub mod device;
pub mod limiter;
pub mod orchestrator;
pub mod partition;
pub mod preinit;
pub mod stats;
pub mod worker;
