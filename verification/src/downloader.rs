//! Download planning: byte-range partitioning, resume bookkeeping, retry and progress decisions.

pub mod state;
pub mod rate;
pub mod coordinator;
pub mod chunk;
pub mod single;
pub mod parallel;
