//! A transparent caching proxy for the MySQL wire protocol: the verified core.
//!
//! The crate holds the per-connection packet pipeline (framing, request
//! classification, response capture), the SQL pattern matcher and
//! fingerprinter, the rule table and the metric aggregation. Each function
//! carries a contract that Verus proves; calls into other crates stand behind
//! small trusted declarations whose doc comments say what is assumed.

pub mod admin;
pub mod cache;
pub mod config;
pub mod demo;
pub mod math;
pub mod meta;
pub mod metrics;
pub mod protocol;
pub mod serve;
pub mod sql;
pub mod sys_error;
pub mod text;
pub mod utils;
