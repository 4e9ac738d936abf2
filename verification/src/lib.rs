//! The orchestration core of a container manager: it builds the argument
//! vectors for a container runtime, parses what the runtime prints into
//! records, keeps the last listing as a cache, and sequences operations that
//! take several runtime calls.

pub mod executor;
pub mod json;
pub mod lifecycle;
pub mod log;
pub mod manager;
pub mod operation;
pub mod parser;
pub mod paths;
pub mod records;
pub mod text;
