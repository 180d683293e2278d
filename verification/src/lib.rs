//! Pattern-based file finding: a name matcher, and a planner that walks a
//! directory tree to a bounded depth while bounding how many directories are
//! being listed at once.
//!
//! The planner performs no input or output. It tells its driver which
//! directory to list next, takes each listing back, and collects the paths
//! whose names match.

pub mod cli;
pub mod config;
pub mod search;
