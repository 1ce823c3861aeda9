//! Dependency discovery for a module bundler: which other modules a parsed
//! module refers to, in order of first occurrence and without repeats, and the
//! worker pool on which many such analyses run side by side.

pub mod module;
pub mod analyze_deps;
pub mod thread_pool;
