//! What the commands show, and what they do next.

pub mod ant;
pub mod list_vars;
pub mod sessions;
pub mod stats;
