//! Discovery of git repositories below configured root directories: the
//! walk's decisions, the concurrency limit, submodule exclusion and the
//! deduplicated registry of results.
pub mod config;
pub mod finder;
pub mod language;
pub mod limiter;
pub mod registry;
pub mod text;
