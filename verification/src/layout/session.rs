//! Variables of the session and of the account's limits.

use crate::layout::format::{paint, painted};
use crate::layout::variables::{set_opt, set_painted, VariableBuilder};
use crate::text::{concat2, concat3, join_opt, joined_opt, opt_str, opt_view};
use vstd::prelude::*;

verus! {

/// A text in a colour, where there is one.
pub open spec fn painted_opt(color: Seq<char>, text: Option<Seq<char>>, reset: Seq<char>) -> Option<
    Seq<char>,
> {
    match text {
        Some(t) => Some(painted(color, t, reset)),
        None => None,
    }
}

fn paint_opt(color: &str, text: Option<&str>, reset: &str) -> (r: Option<String>)
    ensures
        opt_view(r) == painted_opt(color@, opt_str(text), reset@),
{
    match text {
        Some(t) => Some(paint(color, t, reset)),
        None => None,
    }
}

/// `owner/name`, where both are known.
pub open spec fn repo_name(owner: Option<Seq<char>>, name: Option<Seq<char>>) -> Seq<char> {
    match (owner, name) {
        (Some(o), Some(n)) => o + "/"@ + n,
        _ => Seq::empty(),
    }
}

/// The variables of the session.
pub open spec fn session_variables(
    m: Map<Seq<char>, Seq<char>>,
    effort: Option<Seq<char>>,
    version: Option<Seq<char>>,
    over_200k: bool,
    owner: Option<Seq<char>>,
    name: Option<Seq<char>>,
    color: Seq<char>,
    reset: Seq<char>,
) -> Map<Seq<char>, Seq<char>> {
    let a = set_opt(m, "effort"@, painted_opt(color, effort, reset));
    let b = match version {
        Some(v) => a.insert("cc_version"@, painted(color, "v"@ + v, reset)),
        None => a,
    };
    let c = if over_200k {
        b.insert("over_200k"@, painted(color, "200k+"@, reset))
    } else {
        b
    };
    set_painted(c, "repo"@, color, repo_name(owner, name), reset)
}

/// The variables of the account's limits.
pub open spec fn limit_variables(
    m: Map<Seq<char>, Seq<char>>,
    five_hour: Option<Seq<char>>,
    five_hour_reset: Option<Seq<char>>,
    seven_day: Option<Seq<char>>,
    seven_day_reset: Option<Seq<char>>,
    color: Seq<char>,
    reset: Seq<char>,
) -> Map<Seq<char>, Seq<char>> {
    let five = painted_opt(color, five_hour, reset);
    let seven = painted_opt(color, seven_day, reset);
    let a = set_opt(m, "rate_limit_5h"@, five);
    let b = set_opt(a, "rate_limit_5h_reset"@, painted_opt(color, five_hour_reset, reset));
    let c = set_opt(b, "rate_limit_7d"@, seven);
    let d = set_opt(c, "rate_limit_7d_reset"@, painted_opt(color, seven_day_reset, reset));
    set_opt(d, "rate_limits"@, joined_opt(five, " "@, seven))
}

impl VariableBuilder {
    /// `{effort}`, `{cc_version}`, `{over_200k}` and `{repo}`, each where it is known.
    pub fn session_meta(
        self,
        effort: Option<&str>,
        version: Option<&str>,
        over_200k: bool,
        owner: Option<&str>,
        name: Option<&str>,
        color: &str,
        reset: &str,
    ) -> (r: Self)
        ensures
            r@ == session_variables(
                self@,
                opt_str(effort),
                opt_str(version),
                over_200k,
                opt_str(owner),
                opt_str(name),
                color@,
                reset@,
            ),
    {
        let mut b = self;
        b.put_opt("effort", paint_opt(color, effort, reset));
        match version {
            Some(v) => b.put("cc_version", paint(color, concat2("v", v).as_str(), reset)),
            None => {},
        }
        if over_200k {
            b.put("over_200k", paint(color, "200k+", reset));
        }
        match (owner, name) {
            (Some(o), Some(n)) => b.put_painted("repo", color, concat3(o, "/", n).as_str(), reset),
            _ => {},
        }
        b
    }

    /// `{rate_limits}`, `{rate_limit_5h}`, `{rate_limit_7d}` and the two countdowns, each
    /// where it is known.
    pub fn rate_limits(
        self,
        five_hour: Option<&str>,
        five_hour_reset: Option<&str>,
        seven_day: Option<&str>,
        seven_day_reset: Option<&str>,
        color: &str,
        reset: &str,
    ) -> (r: Self)
        ensures
            r@ == limit_variables(
                self@,
                opt_str(five_hour),
                opt_str(five_hour_reset),
                opt_str(seven_day),
                opt_str(seven_day_reset),
                color@,
                reset@,
            ),
    {
        let mut b = self;
        b.put_opt("rate_limit_5h", paint_opt(color, five_hour, reset));
        b.put_opt("rate_limit_5h_reset", paint_opt(color, five_hour_reset, reset));
        b.put_opt("rate_limit_7d", paint_opt(color, seven_day, reset));
        b.put_opt("rate_limit_7d_reset", paint_opt(color, seven_day_reset, reset));
        let both = join_opt(
            paint_opt(color, five_hour, reset),
            " ",
            paint_opt(color, seven_day, reset),
        );
        b.put_opt("rate_limits", both);
        b
    }
}

} // verus!
