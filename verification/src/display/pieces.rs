//! Pieces of the line.

use crate::agents::{share_fraction, AgentsSummary};
use crate::double::Double;
use crate::ratio::fraction_digits;
use crate::text::{
    concat2, concat3, concat4, dec, dec_int, i64_text, join_opt, joined_opt, opt_str, opt_view,
    u64_text,
};
use vstd::prelude::*;

verus! {

/// A span of time: `45s`, `1m`, `1h1m`.
pub open spec fn duration_digits(seconds: nat) -> Seq<char> {
    if seconds < 60 {
        dec(seconds) + "s"@
    } else if seconds < 3600 {
        dec(seconds / 60) + "m"@
    } else {
        dec(seconds / 3600) + "h"@ + dec((seconds % 3600) / 60) + "m"@
    }
}

/// A span of time: `45s`, `1m`, `1h1m`.
pub fn format_duration(seconds: u64) -> (r: String)
    ensures
        r@ == duration_digits(seconds as nat),
{
    if seconds < 60 {
        concat2(u64_text(seconds).as_str(), "s")
    } else if seconds < 3600 {
        concat2(u64_text(seconds / 60).as_str(), "m")
    } else {
        concat4(
            u64_text(seconds / 3600).as_str(),
            "h",
            u64_text((seconds % 3600) / 60).as_str(),
            "m",
        )
    }
}

/// How many agents a session has spawned and their share of its input, where there are
/// any.
pub open spec fn agents_piece(s: AgentsSummary) -> Option<Seq<char>> {
    let total = s.main.traffic() + s.agents.traffic();
    if s.agent_files == 0 {
        None
    } else if total == 0 {
        Some("🤖"@ + dec(s.agent_files as nat))
    } else {
        Some(
            "🤖"@ + dec(s.agent_files as nat) + (" "@ + fraction_digits(
                share_fraction(s.agents.traffic(), total),
                0,
            ) + "%"@),
        )
    }
}

/// How many agents a session has spawned and their share of its input: `🤖3 30%`.
/// Nothing in a session without agents.
pub fn format_agents(summary: &AgentsSummary) -> (r: Option<String>)
    requires
        summary.main.traffic() + summary.agents.traffic() <= u64::MAX,
    ensures
        opt_view(r) == agents_piece(*summary),
{
    if !summary.has_agents() {
        return None;
    }
    let count = concat2("🤖", u64_text(summary.agent_files as u64).as_str());
    match summary.agent_share_percent(0) {
        Some(p) => {
            let share = concat3(" ", p.as_str(), "%");
            Some(concat2(count.as_str(), share.as_str()))
        },
        None => Some(count),
    }
}

/// What the payload says of the main conversation's prompt cache.
#[derive(Debug)]
pub struct PromptCache {
    /// Share of input that came from the cache.
    pub hit_ratio: Option<Double>,
    pub misses: Option<u64>,
    /// Why the cache was missed last.
    pub last_miss_causes: Vec<String>,
}

/// Hit ratio, misses and the first cause of the last miss, each where it is known.
pub open spec fn prompt_cache_piece(pc: PromptCache) -> Option<Seq<char>> {
    let hit = match pc.hit_ratio {
        Some(r) => Some("cache "@ + r.times(100).digits(0) + "%"@),
        None => None,
    };
    match pc.misses {
        Some(m) => if m > 0 {
            joined_opt(
                joined_opt(hit, " "@, Some("miss:"@ + dec(m as nat))),
                " "@,
                if pc.last_miss_causes@.len() > 0 {
                    Some(pc.last_miss_causes@[0]@)
                } else {
                    None
                },
            )
        } else {
            hit
        },
        None => hit,
    }
}

/// `cache 91% miss:2 tools_changed`, each piece where it is known.
pub fn format_prompt_cache(pc: &PromptCache) -> (r: Option<String>)
    ensures
        opt_view(r) == prompt_cache_piece(*pc),
{
    let hit = match pc.hit_ratio {
        Some(ratio) => Some(concat3("cache ", ratio.product(100).text(0).as_str(), "%")),
        None => None,
    };
    match pc.misses {
        Some(m) => {
            if m > 0 {
                let missed = join_opt(hit, " ", Some(concat2("miss:", u64_text(m).as_str())));
                let cause = if pc.last_miss_causes.len() > 0 {
                    Some(pc.last_miss_causes[0].clone())
                } else {
                    None
                };
                join_opt(missed, " ", cause)
            } else {
                hit
            }
        },
        None => hit,
    }
}

// ---------------------------------------------------------------------------
// Limits of the account
// ---------------------------------------------------------------------------

/// One window of the account's limits.
#[derive(Debug, Clone, Copy, PartialEq, Eq, Structural)]
pub struct RateLimitWindow {
    pub used_percentage: Option<Double>,
    /// When the window starts anew, in seconds since the epoch.
    pub resets_at: Option<i64>,
}

/// The windows of the account's limits.
#[derive(Debug, Clone, Copy, PartialEq, Eq, Structural)]
pub struct RateLimits {
    pub five_hour: Option<RateLimitWindow>,
    pub seven_day: Option<RateLimitWindow>,
}

/// Time left: `3d5h`, `2h13m`, `45m`, `<1m`. Nothing when no time is left.
pub open spec fn countdown(left: int) -> Option<Seq<char>> {
    let days = left / 86_400;
    let hours = (left % 86_400) / 3_600;
    let mins = (left % 3_600) / 60;
    if left <= 0 {
        None
    } else if days > 0 {
        Some(dec(days as nat) + "d"@ + dec(hours as nat) + "h"@)
    } else if hours > 0 {
        Some(dec(hours as nat) + "h"@ + dec(mins as nat) + "m"@)
    } else if mins > 0 {
        Some(dec(mins as nat) + "m"@)
    } else {
        Some("<1m"@)
    }
}

/// Time left until a window starts anew: `3d5h`, `2h13m`, `45m`, `<1m`. Nothing when that
/// is now or past.
pub fn format_reset_countdown(resets_at: i64, now: i64) -> (r: Option<String>)
    ensures
        opt_view(r) == countdown(resets_at - now),
{
    let left: i128 = resets_at as i128 - now as i128;
    if left <= 0 {
        return None;
    }
    let d: u64 = left as u64;
    let days: u64 = d / 86_400;
    let hours: u64 = (d % 86_400) / 3_600;
    let mins: u64 = (d % 3_600) / 60;
    if days > 0 {
        Some(concat4(u64_text(days).as_str(), "d", u64_text(hours).as_str(), "h"))
    } else if hours > 0 {
        Some(concat4(u64_text(hours).as_str(), "h", u64_text(mins).as_str(), "m"))
    } else if mins > 0 {
        Some(concat2(u64_text(mins).as_str(), "m"))
    } else {
        Some("<1m".to_owned())
    }
}

/// One window: its label, the nearest whole percentage, and the time left where it is
/// given.
pub open spec fn limit_piece(label: Seq<char>, pct: Double, left: Option<Seq<char>>) -> Seq<char> {
    let used = label + ":"@ + dec_int(pct.rounded()) + "%"@;
    match left {
        Some(t) => used + " ("@ + t + ")"@,
        None => used,
    }
}

/// One window: `5h:24%`, or `5h:24% (2h13m)`.
pub fn rate_limit_piece(label: &str, pct: Double, countdown: Option<&str>) -> (r: String)
    ensures
        r@ == limit_piece(label@, pct, opt_str(countdown)),
{
    let used = concat4(label, ":", i64_text(pct.round()).as_str(), "%");
    match countdown {
        Some(t) => concat4(used.as_str(), " (", t, ")"),
        None => used,
    }
}

/// The time left of a window, where it is known.
pub open spec fn window_countdown(w: RateLimitWindow, now: int) -> Option<Seq<char>> {
    match w.resets_at {
        Some(t) => countdown(t - now),
        None => None,
    }
}

pub fn format_window_countdown(w: &RateLimitWindow, now: i64) -> (r: Option<String>)
    ensures
        opt_view(r) == window_countdown(*w, now as int),
{
    match w.resets_at {
        Some(t) => format_reset_countdown(t, now),
        None => None,
    }
}

/// One window of which the percentage is known, with the time left where that is wanted.
pub open spec fn window_piece(
    label: Seq<char>,
    w: Option<RateLimitWindow>,
    now: int,
    show_countdown: bool,
) -> Option<Seq<char>> {
    match w {
        Some(x) => match x.used_percentage {
            Some(p) => Some(
                limit_piece(
                    label,
                    p,
                    if show_countdown {
                        window_countdown(x, now)
                    } else {
                        None
                    },
                ),
            ),
            None => None,
        },
        None => None,
    }
}

pub fn format_window(label: &str, w: &Option<RateLimitWindow>, now: i64, show_countdown: bool) -> (r:
    Option<String>)
    ensures
        opt_view(r) == window_piece(label@, *w, now as int, show_countdown),
{
    match w {
        Some(x) => match x.used_percentage {
            Some(p) => {
                let left = if show_countdown {
                    format_window_countdown(x, now)
                } else {
                    None
                };
                match left {
                    Some(t) => Some(rate_limit_piece(label, p, Some(t.as_str()))),
                    None => Some(rate_limit_piece(label, p, None)),
                }
            },
            None => None,
        },
        None => None,
    }
}

/// Both windows, each where its percentage is known.
pub open spec fn limits_piece(rl: RateLimits, now: int, show_countdown: bool) -> Option<Seq<char>> {
    joined_opt(
        window_piece("5h"@, rl.five_hour, now, show_countdown),
        " "@,
        window_piece("7d"@, rl.seven_day, now, show_countdown),
    )
}

/// `5h:24% 7d:41%`, with the time left of each where that is wanted. Nothing when no
/// percentage is known.
pub fn format_rate_limits(rl: &RateLimits, now: i64, show_countdown: bool) -> (r: Option<String>)
    ensures
        opt_view(r) == limits_piece(*rl, now as int, show_countdown),
{
    join_opt(
        format_window("5h", &rl.five_hour, now, show_countdown),
        " ",
        format_window("7d", &rl.seven_day, now, show_countdown),
    )
}

} // verus!
