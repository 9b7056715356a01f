//! A polite, rule-driven recursive web crawler library.
//!
//! The heart of the library is the rule-matching subsystem: single-dimension
//! matchers (host, scheme, port, path, method) composed into permission
//! buckets with accept/reject semantics, a `Route` that combines all
//! dimensions, and the decision logic of the depth-bounded polling scheduler.

pub mod config;
pub mod config_reader;
pub mod crawl;
pub mod crawlers;
pub mod globs;
pub mod machine_config;
pub mod models;
pub mod parser;
pub mod polling;
mod random;
pub mod text;
pub mod urls;
pub mod validation;
