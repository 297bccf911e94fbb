//! Pieces that variables are made of.

use crate::double::Double;
use crate::ratio::{
    fraction_digits, fraction_text, nearest, nearest_double, nearest_whole, whole_double,
};
use crate::text::{concat2, concat3, concat5, dec, same, u64_text};
use vstd::prelude::*;

verus! {

/// `text` in a colour.
pub open spec fn painted(color: Seq<char>, text: Seq<char>, reset: Seq<char>) -> Seq<char> {
    color + text + reset
}

pub fn paint(color: &str, text: &str, reset: &str) -> (r: String)
    ensures
        r@ == painted(color@, text@, reset@),
{
    concat3(color, text, reset)
}

/// A token count: thousands with `K`, rounded to the nearest; millions with `M` and one
/// decimal.
pub open spec fn token_count(n: nat) -> Seq<char> {
    if n >= 1_000_000 {
        fraction_digits(nearest(nearest_whole(n), 1_000_000), 1) + "M"@
    } else if n >= 1_000 {
        dec((n + 500) / 1000) + "K"@
    } else {
        dec(n)
    }
}

/// A token count: `999`, `12K`, `1.5M`.
pub fn format_token_count(n: u64) -> (r: String)
    ensures
        r@ == token_count(n as nat),
{
    if n >= 1_000_000 {
        let w: u128 = whole_double(n as u128);
        let f = nearest_double(w, 1_000_000);
        concat2(fraction_text(f, 1).as_str(), "M")
    } else if n >= 1_000 {
        concat2(u64_text((n + 500) / 1000).as_str(), "K")
    } else {
        u64_text(n)
    }
}

/// How many seconds a rate's unit of time has.
pub open spec fn unit_factor(time_unit: Seq<char>) -> nat {
    if time_unit == "minute"@ {
        60
    } else if time_unit == "hour"@ {
        3600
    } else {
        1
    }
}

/// What a rate's unit of time is called.
pub open spec fn unit_name(time_unit: Seq<char>) -> Seq<char> {
    if time_unit == "minute"@ {
        "tok/min"@
    } else if time_unit == "hour"@ {
        "tok/hr"@
    } else {
        "tok/s"@
    }
}

/// Seconds and name of a rate's unit of time; anything but `minute` and `hour` is a
/// second.
pub fn rate_unit(time_unit: &str) -> (r: (u32, &'static str))
    ensures
        r.0 == unit_factor(time_unit@),
        r.1@ == unit_name(time_unit@),
        r.0 <= 3600,
{
    if same(time_unit, "minute") {
        (60, "tok/min")
    } else if same(time_unit, "hour") {
        (3600, "tok/hr")
    } else {
        (1, "tok/s")
    }
}

/// A rate with one decimal, in thousands from a thousand on.
pub open spec fn rate_digits(rate: Double) -> Seq<char> {
    if Double::whole(1000).at_most(rate) {
        rate.over(1000).digits(1) + "K"@
    } else {
        rate.digits(1)
    }
}

/// A rate per second in its unit of time.
pub open spec fn rate_in_unit(rate: Double, time_unit: Seq<char>) -> Seq<char> {
    rate_digits(rate.times(unit_factor(time_unit)))
}

/// A rate per second, times so many seconds, with one decimal; in thousands from a
/// thousand on.
pub fn rate_text(rate: Double, seconds: u32) -> (r: String)
    ensures
        r@ == rate_digits(rate.times(seconds as nat)),
{
    let x = rate.product(seconds as u64);
    if Double::of_whole(1000).not_above(&x) {
        concat2(x.quotient(1000).text(1).as_str(), "K")
    } else {
        x.text(1)
    }
}

/// A rate in its unit of time, with the unit's name, in a colour.
pub open spec fn rate_with_unit(
    rate: Double,
    time_unit: Seq<char>,
    color: Seq<char>,
    reset: Seq<char>,
) -> Seq<char> {
    color + rate_in_unit(rate, time_unit) + " "@ + unit_name(time_unit) + reset
}

/// A rate in its unit of time, with the unit's name, in a colour.
pub fn format_rate_with_unit(rate: Double, time_unit: &str, color: &str, reset: &str) -> (r: String)
    ensures
        r@ == rate_with_unit(rate, time_unit@, color@, reset@),
{
    let (seconds, name) = rate_unit(time_unit);
    concat5(color, rate_text(rate, seconds).as_str(), " ", name, reset)
}

} // verus!
