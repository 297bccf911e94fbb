//! Opt-in enrichment: cached model windows and account usage, fetched out of band.

pub mod audit;
pub mod cache;
pub mod config;
pub mod diagnostics;
pub mod duration;
pub mod fetch;
pub mod usage;
