//! Git adapters: what is computed from repository reads, and the commands
//! that write operations run.
pub mod diff;
pub mod log;
pub mod ops;
pub mod refs;
pub mod status;
