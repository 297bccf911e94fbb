//! Token rates on the line.

use crate::config::{TokenRateComponentConfig, TokenRateConfig};
use crate::display::colors::Colors;
use crate::double::Double;
use crate::layout::format::{
    format_token_count, paint, painted, rate_in_unit, rate_text, rate_unit, token_count, unit_name,
};
use crate::layout::rates::{cache_text, cache_words, effective_input, TokenRateMetrics};
use crate::text::{concat2, concat3, concat4, same};
use vstd::prelude::*;

verus! {

/// A rate and its unit, in a colour.
pub open spec fn rate_piece(
    color: Seq<char>,
    label: Seq<char>,
    rate: Double,
    unit: Seq<char>,
    reset: Seq<char>,
) -> Seq<char> {
    color + label + rate_in_unit(rate, unit) + " "@ + unit_name(unit) + reset
}

fn rate_piece_text(color: &str, label: &str, rate: Double, unit: &str, reset: &str) -> (r: String)
    ensures
        r@ == rate_piece(color@, label@, rate, unit@, reset@),
{
    let (factor, name) = rate_unit(unit);
    let front = concat4(color, label, rate_text(rate, factor).as_str(), " ");
    concat3(front.as_str(), name, reset)
}

/// The rates that a mode of display shows on the line.
pub open spec fn rates_in_mode(
    colors: Colors,
    x: TokenRateMetrics,
    unit: Seq<char>,
    config: TokenRateConfig,
) -> Seq<char> {
    let gray = colors.code(colors.theme.light_gray@);
    let reset = colors.reset_code();
    let summary = rate_piece(gray, ""@, x.total_rate, unit, reset);
    let cached = config.cache_metrics && x.cache_hit_ratio is Some;
    let words = cache_words(x.cache_hit_ratio->Some_0, x.cache_roi);
    if config.display_mode@ == "detailed"@ {
        let rates = if config.rate_display@ == "output_only"@ {
            rate_piece(gray, "Out:"@, x.output_rate, unit, reset)
        } else if config.rate_display@ == "input_only"@ {
            rate_piece(gray, "In:"@, effective_input(x), unit, reset)
        } else {
            gray + "In:"@ + rate_in_unit(effective_input(x), unit) + rate_piece(
                " Out:"@,
                ""@,
                x.output_rate,
                unit,
                reset,
            )
        };
        if cached {
            rates + " • "@ + words
        } else {
            rates
        }
    } else if config.display_mode@ == "cache_only"@ && cached {
        painted(colors.code(colors.theme.cyan@), words, reset) + " • "@ + summary
    } else {
        summary
    }
}

fn rates_in_mode_text(
    colors: &Colors,
    x: &TokenRateMetrics,
    unit: &str,
    config: &TokenRateConfig,
) -> (r: String)
    ensures
        r@ == rates_in_mode(*colors, *x, unit@, *config),
{
    let gray = colors.light_gray();
    let reset = colors.reset();
    let words = if config.cache_metrics {
        match x.cache_hit_ratio {
            Some(ratio) => Some(cache_text(ratio, x.cache_roi)),
            None => None,
        }
    } else {
        None
    };
    if same(config.display_mode.as_str(), "detailed") {
        let input = x.input_rate.sum(&x.cache_read_rate);
        let output = x.output_rate;
        let which = config.rate_display.as_str();
        let rates = if same(which, "output_only") {
            rate_piece_text(gray.as_str(), "Out:", output, unit, reset.as_str())
        } else if same(which, "input_only") {
            rate_piece_text(gray.as_str(), "In:", input, unit, reset.as_str())
        } else {
            let (factor, _name) = rate_unit(unit);
            let out = rate_piece_text(" Out:", "", output, unit, reset.as_str());
            concat4(gray.as_str(), "In:", rate_text(input, factor).as_str(), out.as_str())
        };
        return match words {
            Some(w) => concat3(rates.as_str(), " • ", w.as_str()),
            None => rates,
        };
    }
    let summary = rate_piece_text(gray.as_str(), "", x.total_rate, unit, reset.as_str());
    if same(config.display_mode.as_str(), "cache_only") {
        return match words {
            Some(w) => {
                let cache = paint(colors.cyan().as_str(), w.as_str(), reset.as_str());
                concat3(cache.as_str(), " • ", summary.as_str())
            },
            None => summary,
        };
    }
    summary
}

/// The token rates on the line, with the totals that are wanted and not zero.
pub open spec fn rates_piece(
    colors: Colors,
    x: TokenRateMetrics,
    component: TokenRateComponentConfig,
    config: TokenRateConfig,
) -> Seq<char> {
    let gray = colors.code(colors.theme.light_gray@);
    let reset = colors.reset_code();
    let rates = rates_in_mode(colors, x, component.time_unit@, config);
    let session = if component.show_session_total && x.session_total_tokens > 0 {
        " "@ + painted(gray, token_count(x.session_total_tokens as nat), reset)
    } else {
        Seq::empty()
    };
    let daily = if component.show_daily_total && x.daily_total_tokens > 0 {
        " "@ + (gray + "day: "@ + token_count(x.daily_total_tokens as nat) + reset)
    } else {
        Seq::empty()
    };
    rates + session + daily
}

/// The token rates on the line.
pub fn format_token_rates(
    colors: &Colors,
    metrics: &TokenRateMetrics,
    component: &TokenRateComponentConfig,
    config: &TokenRateConfig,
) -> (r: String)
    ensures
        r@ == rates_piece(*colors, *metrics, *component, *config),
{
    let gray = colors.light_gray();
    let reset = colors.reset();
    let rates = rates_in_mode_text(colors, metrics, component.time_unit.as_str(), config);
    let session = if component.show_session_total && metrics.session_total_tokens > 0 {
        let t = paint(
            gray.as_str(),
            format_token_count_for_display(metrics.session_total_tokens).as_str(),
            reset.as_str(),
        );
        concat2(" ", t.as_str())
    } else {
        String::new()
    };
    let daily = if component.show_daily_total && metrics.daily_total_tokens > 0 {
        let t = concat4(
            gray.as_str(),
            "day: ",
            format_token_count_for_display(metrics.daily_total_tokens).as_str(),
            reset.as_str(),
        );
        concat2(" ", t.as_str())
    } else {
        String::new()
    };
    concat3(rates.as_str(), session.as_str(), daily.as_str())
}

/// A token count: `999`, `12K`, `1.5M`.
pub fn format_token_count_for_display(count: u64) -> (r: String)
    ensures
        r@ == token_count(count as nat),
{
    format_token_count(count)
}

} // verus!
