//! Layouts: the variables that a template can name, and the built-in templates.

pub mod cost;
pub mod format;
pub mod presets;
pub mod rates;
pub mod render;
pub mod session;
pub mod variables;

pub use crate::layout::variables::VariableBuilder;
