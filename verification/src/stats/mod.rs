//! Statistics over sessions: by day, by month, and since the beginning.

pub mod session;

pub use crate::stats::session::{SessionStats, StatsData};
