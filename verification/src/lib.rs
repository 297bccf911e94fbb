//! The rules behind a terminal status line: what a session has cost, how much of
//! its context window is used, which sessions exist, and how all of it is written
//! as text.

pub mod text;
pub mod error;
pub mod text_map;
pub mod utils;
pub mod digits;
pub mod ratio;
pub mod paths;
pub mod agents;
pub mod ant;
pub mod clock;
pub mod commands;
pub mod config;
pub mod database;
pub mod display;
pub mod double;
pub mod laws;
pub mod layout;
pub mod models;
pub mod render;
pub mod stats;
