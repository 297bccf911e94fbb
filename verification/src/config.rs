//! Settings that the rules read.
//!
//! A colour is the name of one of the theme's, or an escape code; an empty one means that
//! the default colour applies.

use crate::double::Double;
use vstd::prelude::*;

verus! {

/// How the directory is shown: `short`, `full` or `basename`.
#[derive(Debug)]
pub struct DirectoryComponentConfig {
    pub format: String,
    /// Longest directory shown, in characters; 0 for any length.
    pub max_length: usize,
    pub color: String,
}

/// How the repository is shown: `full`, `branch` or `status`.
#[derive(Debug)]
pub struct GitComponentConfig {
    pub format: String,
    /// `always`, `dirty` or `never`.
    pub show_when: String,
    pub color: String,
}

/// How the context is shown: `full`, `bar`, `percent` or `tokens`.
#[derive(Debug)]
pub struct ContextComponentConfig {
    pub format: String,
    pub show_tokens: bool,
}

/// How the model is shown: `abbreviation`, `full`, `name` or `version`.
#[derive(Debug)]
pub struct ModelComponentConfig {
    pub format: String,
    pub color: String,
}

/// How the cost is shown: `full`, `cost_only`, `rate_only` or `with_daily`.
#[derive(Debug)]
pub struct CostComponentConfig {
    pub format: String,
    pub color: String,
}

/// How the token rate is shown: `rate_only`, `with_session`, `with_daily` or `full`.
#[derive(Debug)]
pub struct TokenRateComponentConfig {
    pub format: String,
    /// `second`, `minute` or `hour`.
    pub time_unit: String,
    pub color: String,
    pub show_session_total: bool,
    pub show_daily_total: bool,
}

/// What the token rate shows.
#[derive(Debug)]
pub struct TokenRateConfig {
    /// `summary`, `detailed` or `cache_only`.
    pub display_mode: String,
    /// `both`, `output_only` or `input_only`.
    pub rate_display: String,
    pub cache_metrics: bool,
}

/// The settings of each component of a layout.
#[derive(Debug)]
pub struct ComponentsConfig {
    pub directory: DirectoryComponentConfig,
    pub git: GitComponentConfig,
    pub context: ContextComponentConfig,
    pub model: ModelComponentConfig,
    pub cost: CostComponentConfig,
    pub token_rate: TokenRateComponentConfig,
}

/// The layout of the line.
#[derive(Debug)]
pub struct LayoutConfig {
    /// A template of the user's own; empty to use the preset.
    pub format: String,
    pub preset: String,
    /// What stands between parts, where the template has `{sep}`.
    pub separator: String,
    /// Whether a variable that is not known is left as it is written.
    pub show_unknown_vars: bool,
    pub components: ComponentsConfig,
}

/// What the line shows, and from where on a percentage is a warning.
#[derive(Debug)]
pub struct DisplayConfig {
    pub show_directory: bool,
    pub show_git: bool,
    pub show_context: bool,
    pub show_model: bool,
    pub show_duration: bool,
    pub show_lines_changed: bool,
    pub show_cost: bool,
    pub show_agents: bool,
    pub show_prompt_cache: bool,
    pub show_rate_limits: bool,
    pub rate_limit_reset_countdown: bool,
    pub show_context_tokens: bool,
    pub progress_bar_width: usize,
}

/// From where on an amount has another colour.
#[derive(Debug, Clone, Copy, PartialEq, Eq, Structural)]
pub struct Thresholds {
    /// A cost from here on is medium.
    pub cost_low: Double,
    /// A cost from here on is high.
    pub cost_medium: Double,
    /// A context percentage above this calls for caution.
    pub context_caution: Double,
    /// A context percentage above this is a warning.
    pub context_warning: Double,
    /// A context percentage above this is critical.
    pub context_critical: Double,
}

/// How a session's time is counted.
#[derive(Debug)]
pub struct BurnRateConfig {
    /// `wall_clock`, `active_time` or `auto_reset`.
    pub mode: String,
    /// Minutes without activity after which a session counts as idle.
    pub inactivity_threshold_minutes: u32,
    /// Shortest time, in seconds, for which a rate is shown.
    pub min_duration_seconds: u64,
}

/// Everything that writing the line reads of the configuration.
#[derive(Debug)]
pub struct LineConfig {
    pub display: DisplayConfig,
    pub burn_rate: BurnRateConfig,
    pub token_rate: TokenRateConfig,
    pub layout: LayoutConfig,
    /// Context percentage from which on a compaction is near.
    pub context_threshold: Double,
}

} // verus!
