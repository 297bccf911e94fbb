//! What holds of the operations, whatever the inputs: how a result relates to what went
//! into it, and how two results relate to one another.

pub mod agents;
pub mod ant;
pub mod commands;
pub mod database;
pub mod line;
pub mod money;
pub mod numbers;
pub mod operations;
pub mod payload;
pub mod pieces;
pub mod places;
pub mod sessions;
pub mod stats;
pub mod templates;
pub mod upkeep;
pub mod variables;
pub mod words;
