//! Variables of how fast tokens are used.

use crate::config::{TokenRateComponentConfig, TokenRateConfig};
use crate::display::colors::Colors;
use crate::double::Double;
use crate::layout::format::{
    format_rate_with_unit, format_token_count, paint, painted, rate_with_unit, token_count,
};
use crate::layout::variables::{chosen_color, pick_color, set_opt, set_text, VariableBuilder};
use crate::text::{
    concat2, concat3, concat4, concat5, dec, if_not_empty, join_opt, joined_opt, non_empty,
    opt_view, same, u64_text,
};
use vstd::prelude::*;

verus! {

/// How fast a session uses tokens. Rates are per second.
#[derive(Debug, Clone, Copy, PartialEq, Eq, Structural)]
pub struct TokenRateMetrics {
    pub input_rate: Double,
    pub output_rate: Double,
    pub cache_read_rate: Double,
    pub total_rate: Double,
    /// Share of input that came from the cache.
    pub cache_hit_ratio: Option<Double>,
    /// How often the cache paid for itself; infinite where it cost nothing.
    pub cache_roi: Option<Double>,
    pub session_total_tokens: u64,
    pub daily_total_tokens: u64,
}

/// Input as the model sees it: fresh and from the cache.
pub open spec fn effective_input(m: TokenRateMetrics) -> Double {
    m.input_rate.plus(m.cache_read_rate)
}

/// A multiple with one decimal.
pub open spec fn roi_digits(roi: Double) -> Seq<char> {
    if roi.is_infinite() {
        "∞"@
    } else {
        roi.digits(1) + "x"@
    }
}

pub fn roi_text(roi: Double) -> (r: String)
    ensures
        r@ == roi_digits(roi),
{
    if roi.infinite() {
        "∞".to_owned()
    } else {
        concat2(roi.text(1).as_str(), "x")
    }
}

/// A share in whole percent, cut off, as far as a byte reaches.
pub open spec fn percent_of(ratio: Double) -> nat {
    ratio.times(100).whole_part(255)
}

fn percent_text(ratio: Double) -> (r: String)
    ensures
        r@ == dec(percent_of(ratio)),
{
    u64_text(ratio.product(100).truncate(255) as u64)
}

/// What the cache did, in words.
pub open spec fn cache_words(ratio: Double, roi: Option<Double>) -> Seq<char> {
    let hit = "Cache:"@ + dec(percent_of(ratio)) + "%"@;
    match roi {
        Some(r) => hit + " ("@ + roi_digits(r) + " ROI)"@,
        None => hit,
    }
}

/// What the cache did, in words: `Cache:85%`, `Cache:85% (12.0x ROI)`.
pub fn cache_text(ratio: Double, roi: Option<Double>) -> (r: String)
    ensures
        r@ == cache_words(ratio, roi),
{
    let hit = concat3("Cache:", percent_text(ratio).as_str(), "%");
    match roi {
        Some(r) => concat4(hit.as_str(), " (", roi_text(r).as_str(), " ROI)"),
        None => hit,
    }
}

/// A session's tokens, in a colour.
pub open spec fn session_tokens(color: Seq<char>, n: nat, reset: Seq<char>) -> Seq<char> {
    painted(color, token_count(n), reset)
}

/// A day's tokens, in a colour.
pub open spec fn day_tokens(color: Seq<char>, n: nat, reset: Seq<char>) -> Seq<char> {
    color + "day: "@ + token_count(n) + reset
}

/// A day's tokens in brackets, in a colour.
pub open spec fn day_in_brackets(color: Seq<char>, n: nat, reset: Seq<char>) -> Seq<char> {
    color + "(day: "@ + token_count(n) + ")"@ + reset
}

fn session_tokens_text(color: &str, n: u64, reset: &str) -> (r: String)
    ensures
        r@ == session_tokens(color@, n as nat, reset@),
{
    paint(color, format_token_count(n).as_str(), reset)
}

fn day_tokens_text(color: &str, n: u64, reset: &str) -> (r: String)
    ensures
        r@ == day_tokens(color@, n as nat, reset@),
{
    concat4(color, "day: ", format_token_count(n).as_str(), reset)
}

fn day_in_brackets_text(color: &str, n: u64, reset: &str) -> (r: String)
    ensures
        r@ == day_in_brackets(color@, n as nat, reset@),
{
    concat5(color, "(day: ", format_token_count(n).as_str(), ")", reset)
}

/// `{token_rate}` where totals may be missing.
pub open spec fn rate_with_totals(
    rate: Seq<char>,
    session: Option<u64>,
    daily: Option<u64>,
    color: Seq<char>,
    reset: Seq<char>,
    format: Seq<char>,
) -> Seq<char> {
    let s = match session {
        Some(n) => Some(session_tokens(color, n as nat, reset)),
        None => None,
    };
    let d = match daily {
        Some(n) => Some(day_in_brackets(color, n as nat, reset)),
        None => None,
    };
    let or_nothing = |v: Option<Seq<char>>|
        match v {
            Some(t) => t,
            None => Seq::empty(),
        };
    if format == "with_session"@ {
        or_nothing(joined_opt(non_empty(rate), " • "@, s))
    } else if format == "with_daily"@ {
        or_nothing(joined_opt(non_empty(rate), " "@, d))
    } else if format == "full"@ {
        let main = or_nothing(joined_opt(non_empty(rate), " • "@, s));
        match d {
            Some(t) => main + " "@ + t,
            None => main,
        }
    } else {
        rate
    }
}

fn or_nothing(v: Option<String>) -> (r: String)
    ensures
        r@ == (match opt_view(v) {
            Some(t) => t,
            None => Seq::empty(),
        }),
{
    match v {
        Some(t) => t,
        None => String::new(),
    }
}

fn rate_with_totals_text(
    rate: &str,
    session: Option<u64>,
    daily: Option<u64>,
    color: &str,
    reset: &str,
    format: &str,
) -> (r: String)
    ensures
        r@ == rate_with_totals(rate@, session, daily, color@, reset@, format@),
{
    let s = match session {
        Some(n) => Some(session_tokens_text(color, n, reset)),
        None => None,
    };
    let d = match daily {
        Some(n) => Some(day_in_brackets_text(color, n, reset)),
        None => None,
    };
    if same(format, "with_session") {
        or_nothing(join_opt(if_not_empty(rate), " • ", s))
    } else if same(format, "with_daily") {
        or_nothing(join_opt(if_not_empty(rate), " ", d))
    } else if same(format, "full") {
        let main = or_nothing(join_opt(if_not_empty(rate), " • ", s));
        match d {
            Some(t) => concat3(main.as_str(), " ", t.as_str()),
            None => main,
        }
    } else {
        rate.to_owned()
    }
}

/// The variables of a rate whose totals may be missing.
pub open spec fn rate_variables(
    m: Map<Seq<char>, Seq<char>>,
    rate: Double,
    session: Option<u64>,
    daily: Option<u64>,
    default_color: Seq<char>,
    reset: Seq<char>,
    config: TokenRateComponentConfig,
    colors: Colors,
) -> Map<Seq<char>, Seq<char>> {
    if rate.at_most(Double::zero()) && session is None && daily is None {
        m
    } else {
        let color = chosen_color(colors, config.color@, default_color);
        let text = if rate.is_positive() {
            rate_with_unit(rate, config.time_unit@, color, reset)
        } else {
            Seq::empty()
        };
        let a = set_text(m, "token_rate_only"@, text);
        let b = match session {
            Some(n) => a.insert("token_session_total"@, session_tokens(color, n as nat, reset)),
            None => a,
        };
        let c = match daily {
            Some(n) => b.insert("token_daily_total"@, day_tokens(color, n as nat, reset)),
            None => b,
        };
        set_text(
            c,
            "token_rate"@,
            rate_with_totals(text, session, daily, color, reset, config.format@),
        )
    }
}

/// The rates that a mode of display shows.
pub open spec fn shown_rates(
    x: TokenRateMetrics,
    unit: Seq<char>,
    color: Seq<char>,
    reset: Seq<char>,
    config: TokenRateConfig,
) -> Seq<char> {
    let input = rate_with_unit(effective_input(x), unit, color, reset);
    let output = rate_with_unit(x.output_rate, unit, color, reset);
    let total = rate_with_unit(x.total_rate, unit, color, reset);
    if config.display_mode@ == "detailed"@ {
        if config.rate_display@ == "output_only"@ {
            color + "Out:"@ + output + reset
        } else if config.rate_display@ == "input_only"@ {
            color + "In:"@ + input + reset
        } else {
            color + "In:"@ + input + " Out:"@ + output + reset
        }
    } else if config.display_mode@ == "cache_only"@ && config.cache_metrics
        && x.cache_hit_ratio is Some {
        painted(color, cache_words(x.cache_hit_ratio->Some_0, x.cache_roi), reset)
    } else {
        total
    }
}

fn shown_rates_text(
    x: &TokenRateMetrics,
    unit: &str,
    color: &str,
    reset: &str,
    config: &TokenRateConfig,
) -> (r: String)
    ensures
        r@ == shown_rates(*x, unit@, color@, reset@, *config),
{
    let mode = config.display_mode.as_str();
    if same(mode, "detailed") {
        let input = format_rate_with_unit(x.input_rate.sum(&x.cache_read_rate), unit, color, reset);
        let output = format_rate_with_unit(x.output_rate, unit, color, reset);
        let which = config.rate_display.as_str();
        if same(which, "output_only") {
            return concat4(color, "Out:", output.as_str(), reset);
        }
        if same(which, "input_only") {
            return concat4(color, "In:", input.as_str(), reset);
        }
        let front = concat4(color, "In:", input.as_str(), " Out:");
        return concat3(front.as_str(), output.as_str(), reset);
    }
    if same(mode, "cache_only") && config.cache_metrics {
        match x.cache_hit_ratio {
            Some(ratio) => {
                return paint(color, cache_text(ratio, x.cache_roi).as_str(), reset);
            },
            None => {},
        }
    }
    format_rate_with_unit(x.total_rate, unit, color, reset)
}

/// The variables of what the cache did.
pub open spec fn cache_variables(
    m: Map<Seq<char>, Seq<char>>,
    x: TokenRateMetrics,
    unit: Seq<char>,
    color: Seq<char>,
    reset: Seq<char>,
) -> Map<Seq<char>, Seq<char>> {
    let a = m.insert(
        "token_cache_rate"@,
        rate_with_unit(x.cache_read_rate, unit, color, reset),
    );
    match x.cache_hit_ratio {
        Some(ratio) => {
            let b = a.insert("token_cache_hit"@, dec(percent_of(ratio)) + "%"@);
            match x.cache_roi {
                Some(roi) => b.insert("token_cache_roi"@, roi_digits(roi)),
                None => b,
            }
        },
        None => a,
    }
}

/// `{token_rate}` with both totals.
pub open spec fn rate_in_format(
    shown: Seq<char>,
    session: nat,
    daily: nat,
    color: Seq<char>,
    reset: Seq<char>,
    format: Seq<char>,
) -> Seq<char> {
    let s = session_tokens(color, session, reset);
    let d = day_in_brackets(color, daily, reset);
    if format == "with_session"@ {
        shown + " • "@ + s
    } else if format == "with_daily"@ {
        shown + " "@ + d
    } else if format == "full"@ {
        shown + " • "@ + s + " "@ + d
    } else {
        shown
    }
}

/// The variables of a session's rates.
pub open spec fn metrics_variables(
    m: Map<Seq<char>, Seq<char>>,
    x: TokenRateMetrics,
    default_color: Seq<char>,
    reset: Seq<char>,
    component: TokenRateComponentConfig,
    config: TokenRateConfig,
    colors: Colors,
) -> Map<Seq<char>, Seq<char>> {
    let color = chosen_color(colors, component.color@, default_color);
    let unit = component.time_unit@;
    let a = m.insert("token_input_rate"@, rate_with_unit(effective_input(x), unit, color, reset))
        .insert("token_output_rate"@, rate_with_unit(x.output_rate, unit, color, reset))
        .insert("token_rate_only"@, rate_with_unit(x.total_rate, unit, color, reset));
    let b = if config.cache_metrics {
        cache_variables(a, x, unit, color, reset)
    } else {
        a
    };
    b.insert(
        "token_session_total"@,
        session_tokens(color, x.session_total_tokens as nat, reset),
    ).insert("token_daily_total"@, day_tokens(color, x.daily_total_tokens as nat, reset)).insert(
        "token_rate"@,
        rate_in_format(
            shown_rates(x, unit, color, reset, config),
            x.session_total_tokens as nat,
            x.daily_total_tokens as nat,
            color,
            reset,
            component.format@,
        ),
    )
}

fn rate_in_format_text(
    shown: &str,
    session: u64,
    daily: u64,
    color: &str,
    reset: &str,
    format: &str,
) -> (r: String)
    ensures
        r@ == rate_in_format(shown@, session as nat, daily as nat, color@, reset@, format@),
{
    if same(format, "with_session") {
        concat3(shown, " • ", session_tokens_text(color, session, reset).as_str())
    } else if same(format, "with_daily") {
        concat3(shown, " ", day_in_brackets_text(color, daily, reset).as_str())
    } else if same(format, "full") {
        concat5(
            shown,
            " • ",
            session_tokens_text(color, session, reset).as_str(),
            " ",
            day_in_brackets_text(color, daily, reset).as_str(),
        )
    } else {
        shown.to_owned()
    }
}

impl VariableBuilder {
    /// `{token_rate}`: tokens a second with one decimal, where there are any.
    pub fn token_rate(self, rate: Double, color: &str, reset: &str) -> (r: Self)
        ensures
            r@ == set_opt(
                self@,
                "token_rate"@,
                if rate.is_positive() {
                    Some(color@ + rate.digits(1) + " tok/s"@ + reset@)
                } else {
                    None
                },
            ),
    {
        let mut b = self;
        if rate.positive() {
            b.put("token_rate", concat4(color, rate.text(1).as_str(), " tok/s", reset));
        }
        b
    }

    /// `{token_rate}`, `{token_rate_only}`, `{token_session_total}` and
    /// `{token_daily_total}` as configured, of what is known. The rate is per second.
    pub fn token_rate_with_config(
        self,
        rate: Double,
        session_total: Option<u64>,
        daily_total: Option<u64>,
        default_color: &str,
        reset: &str,
        config: &TokenRateComponentConfig,
        colors: &Colors,
    ) -> (r: Self)
        ensures
            r@ == rate_variables(
                self@,
                rate,
                session_total,
                daily_total,
                default_color@,
                reset@,
                *config,
                *colors,
            ),
    {
        if rate.not_above(&Double { bits: 0 }) && session_total.is_none() && daily_total.is_none() {
            return self;
        }
        let color = pick_color(colors, config.color.as_str(), default_color);
        let text = if rate.positive() {
            format_rate_with_unit(rate, config.time_unit.as_str(), color.as_str(), reset)
        } else {
            String::new()
        };
        let mut b = self;
        b.put_text("token_rate_only", text.as_str());
        match session_total {
            Some(n) => b.put("token_session_total", session_tokens_text(color.as_str(), n, reset)),
            None => {},
        }
        match daily_total {
            Some(n) => b.put("token_daily_total", day_tokens_text(color.as_str(), n, reset)),
            None => {},
        }
        let all = rate_with_totals_text(
            text.as_str(),
            session_total,
            daily_total,
            color.as_str(),
            reset,
            config.format.as_str(),
        );
        b.put_text("token_rate", all.as_str());
        b
    }

    /// The variables of a session's rates, each rate by itself and `{token_rate}` as
    /// configured.
    pub fn token_rate_with_metrics(
        self,
        metrics: &TokenRateMetrics,
        default_color: &str,
        reset: &str,
        component_config: &TokenRateComponentConfig,
        token_rate_config: &TokenRateConfig,
        colors: &Colors,
    ) -> (r: Self)
        ensures
            r@ == metrics_variables(
                self@,
                *metrics,
                default_color@,
                reset@,
                *component_config,
                *token_rate_config,
                *colors,
            ),
    {
        let color = pick_color(colors, component_config.color.as_str(), default_color);
        let c = color.as_str();
        let unit = component_config.time_unit.as_str();
        let mut b = self;
        b.put(
            "token_input_rate",
            format_rate_with_unit(
                metrics.input_rate.sum(&metrics.cache_read_rate),
                unit,
                c,
                reset,
            ),
        );
        b.put("token_output_rate", format_rate_with_unit(metrics.output_rate, unit, c, reset));
        b.put("token_rate_only", format_rate_with_unit(metrics.total_rate, unit, c, reset));
        if token_rate_config.cache_metrics {
            b.put(
                "token_cache_rate",
                format_rate_with_unit(metrics.cache_read_rate, unit, c, reset),
            );
            match metrics.cache_hit_ratio {
                Some(ratio) => {
                    b.put(
                        "token_cache_hit",
                        concat2(percent_text(ratio).as_str(), "%"),
                    );
                    match metrics.cache_roi {
                        Some(roi) => b.put("token_cache_roi", roi_text(roi)),
                        None => {},
                    }
                },
                None => {},
            }
        }
        b.put(
            "token_session_total",
            session_tokens_text(c, metrics.session_total_tokens, reset),
        );
        b.put("token_daily_total", day_tokens_text(c, metrics.daily_total_tokens, reset));
        let shown = shown_rates_text(metrics, unit, c, reset, token_rate_config);
        b.put(
            "token_rate",
            rate_in_format_text(
                shown.as_str(),
                metrics.session_total_tokens,
                metrics.daily_total_tokens,
                c,
                reset,
                component_config.format.as_str(),
            ),
        );
        b
    }
}

} // verus!
