//! What is kept of each session, and how an update changes it.

pub mod maintenance;
pub mod opening;
pub mod records;
pub mod session;
pub mod tables;
