//! Writing the line.

pub mod attribution;
pub mod colors;
pub mod context;
pub mod enrichment;
pub mod line;
pub mod output;
pub mod pieces;
pub mod rates;
pub mod template;

pub use crate::display::colors::Colors;
