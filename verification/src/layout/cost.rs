//! Variables of what a session costs.

use crate::config::CostComponentConfig;
use crate::display::colors::Colors;
use crate::double::Double;
use crate::layout::variables::{chosen_color, pick_color, set_opt, VariableBuilder};
use crate::text::{concat2, concat3, concat4, concat5, join_opt, joined_opt, opt_view, same};
use vstd::prelude::*;

verus! {

/// A number, unless it is zero or less.
pub open spec fn above_zero(a: Option<Double>) -> Option<Double> {
    match a {
        Some(x) => if x.is_positive() {
            Some(x)
        } else {
            None
        },
        None => None,
    }
}

/// Dollars with a fixed number of decimals, in a colour.
pub open spec fn dollars(color: Seq<char>, a: Double, places: nat, reset: Seq<char>) -> Seq<char> {
    color + "$"@ + a.digits(places) + reset
}

pub fn dollars_text(color: &str, a: Double, places: u32, reset: &str) -> (r: String)
    requires
        places <= 2,
    ensures
        r@ == dollars(color@, a, places as nat, reset@),
{
    concat4(color, "$", a.text(places).as_str(), reset)
}

/// Dollars an hour, in a colour.
pub open spec fn hourly(color: Seq<char>, a: Double, reset: Seq<char>) -> Seq<char> {
    color + "$"@ + a.digits(2) + "/hr"@ + reset
}

pub fn hourly_text(color: &str, a: Double, reset: &str) -> (r: String)
    ensures
        r@ == hourly(color@, a, reset@),
{
    concat5(color, "$", a.text(2).as_str(), "/hr", reset)
}

/// The variables that stand apart whatever the format: `{cost_short}`, `{burn_rate}` and
/// `{daily_total}`.
pub open spec fn cost_figures(
    m: Map<Seq<char>, Seq<char>>,
    session: Option<Double>,
    burn: Option<Double>,
    daily: Option<Double>,
    cost_color: Seq<char>,
    rate_color: Seq<char>,
    reset: Seq<char>,
) -> Map<Seq<char>, Seq<char>> {
    let a = match session {
        Some(c) => m.insert("cost_short"@, dollars(cost_color, c, 0, reset)),
        None => m,
    };
    let b = match above_zero(burn) {
        Some(r) => a.insert("burn_rate"@, hourly(rate_color, r, reset)),
        None => a,
    };
    match above_zero(daily) {
        Some(d) => b.insert("daily_total"@, dollars(cost_color, d, 2, reset)),
        None => b,
    }
}

/// The cost in its configured form, if there is anything to show.
pub open spec fn cost_value(
    session: Option<Double>,
    burn: Option<Double>,
    daily: Option<Double>,
    cost_color: Seq<char>,
    rate_color: Seq<char>,
    reset: Seq<char>,
    format: Seq<char>,
) -> Option<Seq<char>> {
    let cost = match session {
        Some(c) => Some(dollars(cost_color, c, 2, reset)),
        None => None,
    };
    if format == "cost_only"@ {
        cost
    } else if format == "rate_only"@ {
        match above_zero(burn) {
            Some(r) => Some(hourly(rate_color, r, reset)),
            None => None,
        }
    } else if format == "with_daily"@ {
        joined_opt(
            cost,
            " "@,
            match above_zero(daily) {
                Some(d) => Some("day:"@ + dollars(cost_color, d, 2, reset)),
                None => None,
            },
        )
    } else {
        joined_opt(
            cost,
            " "@,
            match above_zero(burn) {
                Some(r) => Some("("@ + hourly(rate_color, r, reset) + ")"@),
                None => None,
            },
        )
    }
}

fn if_above_zero(a: Option<Double>) -> (r: Option<Double>)
    ensures
        r == above_zero(a),
{
    match a {
        Some(x) => {
            if x.positive() {
                Some(x)
            } else {
                None
            }
        },
        None => None,
    }
}

fn cost_text(
    session: Option<Double>,
    burn: Option<Double>,
    daily: Option<Double>,
    cost_color: &str,
    rate_color: &str,
    reset: &str,
    format: &str,
) -> (r: Option<String>)
    ensures
        opt_view(r) == cost_value(
            session,
            burn,
            daily,
            cost_color@,
            rate_color@,
            reset@,
            format@,
        ),
{
    let cost = match session {
        Some(c) => Some(dollars_text(cost_color, c, 2, reset)),
        None => None,
    };
    if same(format, "cost_only") {
        cost
    } else if same(format, "rate_only") {
        match if_above_zero(burn) {
            Some(r) => Some(hourly_text(rate_color, r, reset)),
            None => None,
        }
    } else if same(format, "with_daily") {
        let day = match if_above_zero(daily) {
            Some(d) => Some(concat2("day:", dollars_text(cost_color, d, 2, reset).as_str())),
            None => None,
        };
        join_opt(cost, " ", day)
    } else {
        let rate = match if_above_zero(burn) {
            Some(r) => Some(concat3("(", hourly_text(rate_color, r, reset).as_str(), ")")),
            None => None,
        };
        join_opt(cost, " ", rate)
    }
}

impl VariableBuilder {
    fn put_cost_figures(
        &mut self,
        session: Option<Double>,
        burn: Option<Double>,
        daily: Option<Double>,
        cost_color: &str,
        rate_color: &str,
        reset: &str,
    )
        ensures
            final(self)@ == cost_figures(
                old(self)@,
                session,
                burn,
                daily,
                cost_color@,
                rate_color@,
                reset@,
            ),
    {
        match session {
            Some(c) => self.put("cost_short", dollars_text(cost_color, c, 0, reset)),
            None => {},
        }
        match if_above_zero(burn) {
            Some(r) => self.put("burn_rate", hourly_text(rate_color, r, reset)),
            None => {},
        }
        match if_above_zero(daily) {
            Some(d) => self.put("daily_total", dollars_text(cost_color, d, 2, reset)),
            None => {},
        }
    }

    /// `{cost}`, `{cost_short}`, `{burn_rate}` and `{daily_total}`.
    pub fn cost(
        self,
        session_cost: Option<Double>,
        burn_rate: Option<Double>,
        daily_total: Option<Double>,
        cost_color: &str,
        rate_color: &str,
        reset: &str,
    ) -> (r: Self)
        ensures
            r@ == cost_figures(
                set_opt(
                    self@,
                    "cost"@,
                    match session_cost {
                        Some(c) => Some(dollars(cost_color@, c, 2, reset@)),
                        None => None,
                    },
                ),
                session_cost,
                burn_rate,
                daily_total,
                cost_color@,
                rate_color@,
                reset@,
            ),
    {
        let mut b = self;
        match session_cost {
            Some(c) => b.put("cost", dollars_text(cost_color, c, 2, reset)),
            None => {},
        }
        b.put_cost_figures(session_cost, burn_rate, daily_total, cost_color, rate_color, reset);
        b
    }

    /// `{cost}`, `{cost_short}`, `{burn_rate}` and `{daily_total}` as configured.
    pub fn cost_with_config(
        self,
        session_cost: Option<Double>,
        burn_rate: Option<Double>,
        daily_total: Option<Double>,
        default_cost_color: &str,
        rate_color: &str,
        reset: &str,
        config: &CostComponentConfig,
        colors: &Colors,
    ) -> (r: Self)
        ensures
            r@ == ({
                let color = chosen_color(*colors, config.color@, default_cost_color@);
                set_opt(
                    cost_figures(
                        self@,
                        session_cost,
                        burn_rate,
                        daily_total,
                        color,
                        rate_color@,
                        reset@,
                    ),
                    "cost"@,
                    cost_value(
                        session_cost,
                        burn_rate,
                        daily_total,
                        color,
                        rate_color@,
                        reset@,
                        config.format@,
                    ),
                )
            }),
    {
        let color = pick_color(colors, config.color.as_str(), default_cost_color);
        let mut b = self;
        b.put_cost_figures(
            session_cost,
            burn_rate,
            daily_total,
            color.as_str(),
            rate_color,
            reset,
        );
        b.put_opt(
            "cost",
            cost_text(
                session_cost,
                burn_rate,
                daily_total,
                color.as_str(),
                rate_color,
                reset,
                config.format.as_str(),
            ),
        );
        b
    }
}

} // verus!
