//! The line without a template: its parts in a fixed order.

use crate::agents::AgentsSummary;
use crate::config::LineConfig;
use crate::display::colors::Colors;
use crate::display::context::{
    context_piece, context_usage_from_payload, format_context_bar, payload_tokens, payload_usage,
    ContextUsage, ContextWindow,
};
use crate::display::pieces::{
    agents_piece, duration_digits, format_agents, format_duration, format_prompt_cache,
    format_rate_limits, limits_piece, prompt_cache_piece, PromptCache, RateLimits,
};
use crate::display::rates::{format_token_rates, rates_piece};
use crate::double::Double;
use crate::layout::cost::{dollars, dollars_text};
use crate::layout::format::{paint, painted};
use crate::layout::rates::TokenRateMetrics;
use crate::layout::variables::{lines_text, lines_value};
use crate::text::{
    concat2, concat3, concat4, concat5, join_opt, joined_opt, opt_view,
    trim_start, trimmed_start,
};
use crate::utils::{cleaned, sanitize_for_terminal};
use vstd::prelude::*;

verus! {

/// What the payload says beyond directory, model and cost.
#[derive(Debug)]
pub struct PayloadExtras<'a> {
    pub context_window: Option<&'a ContextWindow>,
    pub rate_limits: Option<&'a RateLimits>,
    pub effort: Option<&'a str>,
    /// Whether the last response exceeded two hundred thousand tokens.
    pub exceeds_200k: Option<bool>,
    pub version: Option<&'a str>,
    pub repo: Option<&'a Repo>,
    pub agents: Option<&'a AgentsSummary>,
    pub prompt_cache: Option<&'a PromptCache>,
}

impl<'a> Default for PayloadExtras<'a> {
    fn default() -> (r: Self)
        ensures
            r.context_window is None,
            r.rate_limits is None,
            r.effort is None,
            r.exceeds_200k is None,
            r.version is None,
            r.repo is None,
            r.agents is None,
            r.prompt_cache is None,
    {
        PayloadExtras {
            context_window: None,
            rate_limits: None,
            effort: None,
            exceeds_200k: None,
            version: None,
            repo: None,
            agents: None,
            prompt_cache: None,
        }
    }
}

/// The repository that a remote names.
#[derive(Debug)]
pub struct Repo {
    pub owner: Option<String>,
    pub name: Option<String>,
}

/// State of the working copy.
#[derive(Debug)]
pub struct GitFacts {
    /// The state in words, as the line shows it.
    pub info: String,
    pub branch: String,
    pub added: u64,
    pub modified: u64,
    pub deleted: u64,
    pub untracked: u64,
}

/// The forms of a model's name.
#[derive(Debug)]
pub struct ModelFacts {
    pub abbreviation: String,
    pub name: String,
    pub family: String,
    pub version: String,
}

/// What the payload says of a session's cost.
#[derive(Debug, Clone, Copy, PartialEq, Eq, Structural)]
pub struct Cost {
    pub total_cost_usd: Option<Double>,
    pub total_lines_added: Option<u64>,
    pub total_lines_removed: Option<u64>,
    pub total_duration_ms: Option<u64>,
}

/// The context as a transcript lets estimate it.
#[derive(Debug, Clone, Copy, PartialEq, Eq, Structural)]
pub struct TranscriptContext {
    pub usage: ContextUsage,
    pub tokens: Option<u32>,
    pub window: Option<u64>,
}

/// What is known when the line is written.
#[derive(Debug)]
pub struct LineFacts<'a> {
    pub test_mode: bool,
    pub current_dir: &'a str,
    /// The directory in its short form, safe to print.
    pub short_dir: &'a str,
    pub basename: &'a str,
    pub git: Option<&'a GitFacts>,
    pub model: Option<&'a ModelFacts>,
    pub transcript_context: Option<TranscriptContext>,
    /// Seconds that the transcript spans.
    pub transcript_duration: Option<u64>,
    /// Seconds that the session has lasted, as configured.
    pub session_duration: Option<u64>,
    pub cost: Option<&'a Cost>,
    pub daily_total: Double,
    pub token_rates: Option<&'a TokenRateMetrics>,
    /// Seconds since the epoch.
    pub now: i64,
}

/// The context to show: what the payload says, or else what the transcript does.
pub open spec fn shown_context(
    facts: LineFacts,
    extras: PayloadExtras,
    threshold: Double,
) -> Option<TranscriptContext> {
    let payload = match extras.context_window {
        Some(cw) => match payload_usage(*cw, threshold) {
            Some(u) => Some(
                TranscriptContext {
                    usage: u,
                    tokens: payload_tokens(*cw),
                    window: cw.context_window_size,
                },
            ),
            None => None,
        },
        None => None,
    };
    match payload {
        Some(c) => Some(c),
        None => facts.transcript_context,
    }
}

/// The context to show: what the payload says, or else what the transcript does.
pub fn context_to_show(facts: &LineFacts, extras: &PayloadExtras, threshold: Double) -> (r: Option<
    TranscriptContext,
>)
    ensures
        r == shown_context(*facts, *extras, threshold),
{
    match extras.context_window {
        Some(cw) => match context_usage_from_payload(cw, threshold) {
            Some((usage, tokens, window)) => Some(TranscriptContext { usage, tokens, window }),
            None => facts.transcript_context,
        },
        None => facts.transcript_context,
    }
}

/// How long a session has lasted: as counted, or as the transcript spans, or as the
/// payload says.
pub open spec fn lasted(session: Option<u64>, transcript: Option<u64>, ms: Option<u64>) -> Option<
    u64,
> {
    match (session, transcript, ms) {
        (Some(s), _, _) => Some(s),
        (None, Some(t), _) => Some(t),
        (None, None, Some(m)) => Some(m / 1000),
        (None, None, None) => None,
    }
}

/// Dollars an hour, given dollars in so many seconds.
pub open spec fn per_hour(cost: Double, seconds: nat) -> Double {
    cost.times(3600).over(seconds)
}

/// Dollars an hour of a session that has lasted long enough.
pub open spec fn burn_rate(cost: Double, duration: Option<u64>, least: u64) -> Option<Double> {
    match duration {
        Some(d) => if d > least {
            Some(per_hour(cost, d as nat))
        } else {
            None
        },
        None => None,
    }
}

/// Dollars an hour of a session that has lasted long enough.
pub fn session_burn_rate(cost: Double, duration: Option<u64>, least: u64) -> (r: Option<Double>)
    ensures
        r == burn_rate(cost, duration, least),
{
    match duration {
        Some(d) => {
            if d > least {
                Some(cost.product(3600).quotient(d))
            } else {
                None
            }
        },
        None => None,
    }
}

pub fn session_lasted(facts: &LineFacts, cost: &Cost) -> (r: Option<u64>)
    ensures
        r == lasted(facts.session_duration, facts.transcript_duration, cost.total_duration_ms),
{
    match facts.session_duration {
        Some(s) => Some(s),
        None => match facts.transcript_duration {
            Some(t) => Some(t),
            None => match cost.total_duration_ms {
                Some(ms) => Some(ms / 1000),
                None => None,
            },
        },
    }
}

// ---------------------------------------------------------------------------
// The parts
// ---------------------------------------------------------------------------

/// A session's cost, what it costs an hour, and the day's total where that is more.
pub open spec fn session_cost_piece(
    colors: Colors,
    cost: Double,
    burn: Option<Double>,
    daily: Double,
) -> Seq<char> {
    let reset = colors.reset_code();
    let a = dollars(colors.cost_code(cost), cost, 2, reset);
    let b = match burn {
        Some(r) => if r.is_positive() {
            " "@ + colors.code(colors.theme.light_gray@) + "($"@ + r.digits(2) + "/hr)"@ + reset
        } else {
            Seq::empty()
        },
        None => Seq::empty(),
    };
    let c = if cost.below(daily) {
        " "@ + reset + "(day: "@ + colors.cost_code(daily) + "$"@ + daily.digits(2) + ")"@ + reset
    } else {
        Seq::empty()
    };
    a + b + c
}

/// The cost on the line: a session's, or else the day's where there is any.
pub open spec fn cost_piece(
    colors: Colors,
    facts: LineFacts,
    least: u64,
) -> Option<Seq<char>> {
    let daily = facts.daily_total;
    let day_only = if daily.is_positive() {
        Some("day: "@ + dollars(colors.cost_code(daily), daily, 2, colors.reset_code()))
    } else {
        None
    };
    match facts.cost {
        Some(c) => match c.total_cost_usd {
            Some(t) => Some(
                session_cost_piece(
                    colors,
                    t,
                    burn_rate(
                        t,
                        lasted(
                            facts.session_duration,
                            facts.transcript_duration,
                            c.total_duration_ms,
                        ),
                        least,
                    ),
                    daily,
                ),
            ),
            None => day_only,
        },
        None => day_only,
    }
}

fn session_cost_text(colors: &Colors, cost: Double, burn: Option<Double>, daily: Double) -> (r:
    String)
    ensures
        r@ == session_cost_piece(*colors, cost, burn, daily),
{
    let reset = colors.reset();
    let a = dollars_text(colors.cost_color(cost).as_str(), cost, 2, reset.as_str());
    let b = match burn {
        Some(r) => {
            if r.positive() {
                let front = concat4(" ", colors.light_gray().as_str(), "($", r.text(2).as_str());
                concat3(front.as_str(), "/hr)", reset.as_str())
            } else {
                String::new()
            }
        },
        None => String::new(),
    };
    let c = if cost.less_than(&daily) {
        let front = concat5(
            " ",
            reset.as_str(),
            "(day: ",
            colors.cost_color(daily).as_str(),
            "$",
        );
        concat4(front.as_str(), daily.text(2).as_str(), ")", reset.as_str())
    } else {
        String::new()
    };
    concat3(a.as_str(), b.as_str(), c.as_str())
}

fn cost_text(colors: &Colors, facts: &LineFacts, least: u64) -> (r: Option<String>)
    ensures
        opt_view(r) == cost_piece(*colors, *facts, least),
{
    let daily = facts.daily_total;
    match facts.cost {
        Some(c) => match c.total_cost_usd {
            Some(t) => {
                let burn = session_burn_rate(t, session_lasted(facts, c), least);
                return Some(session_cost_text(colors, t, burn, daily));
            },
            None => {},
        },
        None => {},
    }
    if daily.positive() {
        Some(
            concat2(
                "day: ",
                dollars_text(
                    colors.cost_color(daily).as_str(),
                    daily,
                    2,
                    colors.reset().as_str(),
                ).as_str(),
            ),
        )
    } else {
        None
    }
}

/// Lines added and removed on the line, where the payload has both counts.
pub open spec fn lines_piece(colors: Colors, cost: Option<&Cost>) -> Option<Seq<char>> {
    match cost {
        Some(c) => match (c.total_lines_added, c.total_lines_removed) {
            (Some(a), Some(r)) => lines_value(
                a as nat,
                r as nat,
                colors.code(colors.theme.lines_added@),
                colors.code(colors.theme.lines_removed@),
                colors.reset_code(),
            ),
            _ => None,
        },
        None => None,
    }
}

fn lines_part(colors: &Colors, cost: Option<&Cost>) -> (r: Option<String>)
    ensures
        opt_view(r) == lines_piece(*colors, cost),
{
    match cost {
        Some(c) => match (c.total_lines_added, c.total_lines_removed) {
            (Some(a), Some(r)) => lines_text(
                a,
                r,
                colors.lines_added().as_str(),
                colors.lines_removed().as_str(),
                colors.reset().as_str(),
            ),
            _ => None,
        },
        None => None,
    }
}

/// A text in a colour, where there is one.
pub open spec fn tinted(colors: Colors, code: Seq<char>, text: Option<Seq<char>>) -> Option<
    Seq<char>,
> {
    match text {
        Some(t) => Some(painted(colors.code(code), t, colors.reset_code())),
        None => None,
    }
}

fn gray_part(colors: &Colors, text: Option<String>) -> (r: Option<String>)
    ensures
        opt_view(r) == tinted(*colors, colors.theme.light_gray@, opt_view(text)),
{
    match text {
        Some(t) => Some(paint(colors.light_gray().as_str(), t.as_str(), colors.reset().as_str())),
        None => None,
    }
}

/// Something, if it is wanted.
pub open spec fn wanted(flag: bool, part: Option<Seq<char>>) -> Option<Seq<char>> {
    if flag {
        part
    } else {
        None
    }
}

/// The state of the working copy on the line, where there is anything to say.
pub open spec fn git_piece(git: Option<&GitFacts>) -> Option<Seq<char>> {
    match git {
        Some(g) => if g.info@.len() > 0 {
            Some(trimmed_start(g.info@))
        } else {
            None
        },
        None => None,
    }
}

/// The context on the line.
pub open spec fn shown_context_piece(
    colors: Colors,
    facts: LineFacts,
    extras: PayloadExtras,
    config: LineConfig,
) -> Option<Seq<char>> {
    match shown_context(facts, extras, config.context_threshold) {
        Some(c) => Some(
            context_piece(
                colors,
                c.usage,
                c.tokens,
                c.window,
                config.display.progress_bar_width as nat,
                config.display.show_context_tokens,
            ),
        ),
        None => None,
    }
}

/// The parts of the line up to the context.
pub open spec fn first_parts(
    colors: Colors,
    facts: LineFacts,
    extras: PayloadExtras,
    config: LineConfig,
    sep: Seq<char>,
) -> Option<Seq<char>> {
    let d = config.display;
    let a = wanted(facts.test_mode, tinted(colors, colors.theme.yellow@, Some("[TEST]"@)));
    let b = joined_opt(
        a,
        sep,
        wanted(
            d.show_directory,
            tinted(colors, colors.theme.directory@, Some(facts.short_dir@)),
        ),
    );
    let c = joined_opt(b, sep, wanted(d.show_git, git_piece(facts.git)));
    joined_opt(
        c,
        sep,
        wanted(d.show_context, shown_context_piece(colors, facts, extras, config)),
    )
}

/// The parts of the line from the model to the cost.
pub open spec fn middle_parts(
    colors: Colors,
    facts: LineFacts,
    config: LineConfig,
    sep: Seq<char>,
) -> Option<Seq<char>> {
    let d = config.display;
    let model = match facts.model {
        Some(m) => tinted(colors, colors.theme.model@, Some(cleaned(m.abbreviation@))),
        None => None,
    };
    let duration = match facts.transcript_duration {
        Some(s) => tinted(colors, colors.theme.duration@, Some(duration_digits(s as nat))),
        None => None,
    };
    let a = joined_opt(wanted(d.show_model, model), sep, wanted(d.show_duration, duration));
    let b = joined_opt(a, sep, wanted(d.show_lines_changed, lines_piece(colors, facts.cost)));
    joined_opt(
        b,
        sep,
        wanted(
            d.show_cost,
            cost_piece(colors, facts, config.burn_rate.min_duration_seconds),
        ),
    )
}

/// The parts of the line after the cost.
pub open spec fn last_parts(
    colors: Colors,
    facts: LineFacts,
    extras: PayloadExtras,
    config: LineConfig,
    sep: Seq<char>,
) -> Option<Seq<char>> {
    let d = config.display;
    let gray = colors.theme.light_gray@;
    let agents = match extras.agents {
        Some(s) => tinted(colors, gray, agents_piece(*s)),
        None => None,
    };
    let cache = match extras.prompt_cache {
        Some(p) => tinted(colors, gray, prompt_cache_piece(*p)),
        None => None,
    };
    let limits = match extras.rate_limits {
        Some(rl) => tinted(
            colors,
            gray,
            limits_piece(*rl, facts.now as int, d.rate_limit_reset_countdown),
        ),
        None => None,
    };
    let rates = match facts.token_rates {
        Some(x) => Some(
            rates_piece(colors, *x, config.layout.components.token_rate, config.token_rate),
        ),
        None => None,
    };
    let a = joined_opt(wanted(d.show_agents, agents), sep, wanted(d.show_prompt_cache, cache));
    let b = joined_opt(a, sep, wanted(d.show_rate_limits, limits));
    joined_opt(b, sep, rates)
}

/// What stands between two parts.
pub open spec fn separator(colors: Colors) -> Seq<char> {
    " "@ + colors.code(colors.theme.separator@) + "•"@ + colors.reset_code() + " "@
}

/// The line.
pub open spec fn line_text(
    colors: Colors,
    facts: LineFacts,
    extras: PayloadExtras,
    config: LineConfig,
) -> Seq<char> {
    let sep = separator(colors);
    let all = joined_opt(
        joined_opt(
            first_parts(colors, facts, extras, config, sep),
            sep,
            middle_parts(colors, facts, config, sep),
        ),
        sep,
        last_parts(colors, facts, extras, config, sep),
    );
    match all {
        Some(t) => t,
        None => Seq::empty(),
    }
}

/// What the counts that the line adds up must fit in.
pub open spec fn counts_fit(extras: PayloadExtras) -> bool {
    extras.agents matches Some(s) ==> s.main.traffic() + s.agents.traffic() <= u64::MAX
}

fn first_text(
    colors: &Colors,
    facts: &LineFacts,
    extras: &PayloadExtras,
    config: &LineConfig,
    sep: &str,
) -> (r: Option<String>)
    ensures
        opt_view(r) == first_parts(*colors, *facts, *extras, *config, sep@),
{
    let d = &config.display;
    let reset = colors.reset();
    let a = if facts.test_mode {
        Some(paint(colors.yellow().as_str(), "[TEST]", reset.as_str()))
    } else {
        None
    };
    let dir = if d.show_directory {
        Some(paint(colors.directory().as_str(), facts.short_dir, reset.as_str()))
    } else {
        None
    };
    let b = join_opt(a, sep, dir);
    let git = if d.show_git {
        match facts.git {
            Some(g) => {
                if g.info.as_str().is_empty() {
                    None
                } else {
                    Some(trim_start(g.info.as_str()))
                }
            },
            None => None,
        }
    } else {
        None
    };
    let c = join_opt(b, sep, git);
    let context = if d.show_context {
        match context_to_show(facts, extras, config.context_threshold) {
            Some(x) => Some(
                format_context_bar(
                    colors,
                    &x.usage,
                    x.tokens,
                    x.window,
                    d.progress_bar_width,
                    d.show_context_tokens,
                ),
            ),
            None => None,
        }
    } else {
        None
    };
    join_opt(c, sep, context)
}

fn middle_text(colors: &Colors, facts: &LineFacts, config: &LineConfig, sep: &str) -> (r: Option<
    String,
>)
    ensures
        opt_view(r) == middle_parts(*colors, *facts, *config, sep@),
{
    let d = &config.display;
    let reset = colors.reset();
    let model = if d.show_model {
        match facts.model {
            Some(m) => {
                let name = sanitize_for_terminal(m.abbreviation.as_str());
                Some(paint(colors.model().as_str(), name.as_str(), reset.as_str()))
            },
            None => None,
        }
    } else {
        None
    };
    let duration = if d.show_duration {
        match facts.transcript_duration {
            Some(s) => Some(
                paint(
                    colors.duration().as_str(),
                    format_duration(s).as_str(),
                    reset.as_str(),
                ),
            ),
            None => None,
        }
    } else {
        None
    };
    let a = join_opt(model, sep, duration);
    let lines = if d.show_lines_changed {
        lines_part(colors, facts.cost)
    } else {
        None
    };
    let b = join_opt(a, sep, lines);
    let cost = if d.show_cost {
        cost_text(colors, facts, config.burn_rate.min_duration_seconds)
    } else {
        None
    };
    join_opt(b, sep, cost)
}

fn last_text(
    colors: &Colors,
    facts: &LineFacts,
    extras: &PayloadExtras,
    config: &LineConfig,
    sep: &str,
) -> (r: Option<String>)
    requires
        counts_fit(*extras),
    ensures
        opt_view(r) == last_parts(*colors, *facts, *extras, *config, sep@),
{
    let d = &config.display;
    let agents = if d.show_agents {
        match extras.agents {
            Some(s) => gray_part(colors, format_agents(s)),
            None => None,
        }
    } else {
        None
    };
    let cache = if d.show_prompt_cache {
        match extras.prompt_cache {
            Some(p) => gray_part(colors, format_prompt_cache(p)),
            None => None,
        }
    } else {
        None
    };
    let a = join_opt(agents, sep, cache);
    let limits = if d.show_rate_limits {
        match extras.rate_limits {
            Some(rl) => gray_part(
                colors,
                format_rate_limits(rl, facts.now, d.rate_limit_reset_countdown),
            ),
            None => None,
        }
    } else {
        None
    };
    let b = join_opt(a, sep, limits);
    let rates = match facts.token_rates {
        Some(x) => Some(
            format_token_rates(colors, x, &config.layout.components.token_rate, &config.token_rate),
        ),
        None => None,
    };
    join_opt(b, sep, rates)
}

/// The line: every part that is wanted and has something to say, in a fixed order.
pub fn format_statusline_string(
    colors: &Colors,
    facts: &LineFacts,
    extras: &PayloadExtras,
    config: &LineConfig,
) -> (r: String)
    requires
        counts_fit(*extras),
    ensures
        r@ == line_text(*colors, *facts, *extras, *config),
{
    let sep = concat5(
        " ",
        colors.separator_color().as_str(),
        "•",
        colors.reset().as_str(),
        " ",
    );
    let first = first_text(colors, facts, extras, config, sep.as_str());
    let middle = middle_text(colors, facts, config, sep.as_str());
    let last = last_text(colors, facts, extras, config, sep.as_str());
    let front = join_opt(first, sep.as_str(), middle);
    match join_opt(front, sep.as_str(), last) {
        Some(t) => t,
        None => String::new(),
    }
}

} // verus!
