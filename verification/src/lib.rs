//! A verified core for a recursive tree-and-archive text search.
//!
//! The library classifies paths, walks archive containers, scans decoded
//! line streams against a compiled pattern under a consecutive-error budget,
//! captures after-context through a shared forward-only cursor, renders
//! records per output mode, and tracks scheduler counters whose quiescence
//! condition ends a run. File-system traversal, threads and printing live
//! outside, in the unverified shell around this crate.

pub mod config;
pub mod engine;
pub mod jq_processor;
pub mod laws;
pub mod lines;
pub mod regex_processor;
pub mod report;
pub mod scheduler;
pub mod shared_iterator;
pub mod text;
pub mod walker;

pub use config::Args;
pub use config::Output;
pub use walker::Analyzer;
