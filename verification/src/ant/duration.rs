//! Durations as the user writes and reads them.

use crate::error::{refused_with, Result, StatuslineError};
use crate::text::{
    chars_of, concat2, concat3, dec, is_digit, parse_digits, parsed_digits, same, text_of, trim,
    trimmed, u64_text,
};
use vstd::prelude::*;

verus! {

/// How many digits a text begins with.
pub open spec fn digit_run(s: Seq<char>) -> nat
    decreases s.len(),
{
    if s.len() > 0 && is_digit(s[0]) {
        1 + digit_run(s.skip(1))
    } else {
        0
    }
}

/// Seconds in one of a unit.
pub open spec fn unit_seconds(unit: Seq<char>) -> Option<nat> {
    if unit == "s"@ {
        Some(1)
    } else if unit == "m"@ {
        Some(60)
    } else if unit == "h"@ {
        Some(3600)
    } else if unit == "d"@ {
        Some(86_400)
    } else {
        None
    }
}

/// How a duration text reads.
pub enum MaxAge {
    /// So many seconds.
    Seconds(u64),
    /// No unit follows the number.
    NoUnit,
    /// The number is missing, or too large.
    BadNumber,
    /// The unit is none of `s`, `m`, `h`, `d`.
    BadUnit(Seq<char>),
}

/// How a duration text reads: digits, then one unit, white space around it ignored.
pub open spec fn read_max_age(s: Seq<char>) -> MaxAge {
    let t = trimmed(s);
    let k = digit_run(t) as int;
    if k >= t.len() {
        MaxAge::NoUnit
    } else {
        match (parsed_digits(t.take(k)), unit_seconds(t.skip(k))) {
            (None, _) => MaxAge::BadNumber,
            (Some(n), None) => MaxAge::BadUnit(t.skip(k)),
            (Some(n), Some(u)) => if n * u <= u64::MAX {
                MaxAge::Seconds((n * u) as u64)
            } else {
                MaxAge::BadNumber
            },
        }
    }
}

proof fn lemma_digit_run(s: Seq<char>, i: int)
    requires
        0 <= i <= s.len(),
        forall|j: int| 0 <= j < i ==> is_digit(s[j]),
        i == s.len() || !is_digit(s[i]),
    ensures
        digit_run(s) == i,
    decreases i,
{
    if i > 0 {
        assert forall|j: int| 0 <= j < i - 1 implies is_digit(s.skip(1)[j]) by {
            assert(s.skip(1)[j] == s[j + 1]);
        }
        lemma_digit_run(s.skip(1), i - 1);
    }
}

fn bad_number(t: &str) -> (e: StatuslineError)
    ensures
        e is Config,
        e.text() == "invalid --max-age number in '"@ + t@ + "'"@,
{
    StatuslineError::Config(concat3("invalid --max-age number in '", t, "'"))
}

/// Read a duration of one unit (`10m`, `90s`, `24h`, `2d`), in seconds.
pub fn parse_max_age(s: &str) -> (r: Result<u64>)
    ensures
        match read_max_age(s@) {
            MaxAge::Seconds(n) => r matches Ok(m) && m == n,
            MaxAge::NoUnit => refused_with(
                r,
                "invalid --max-age '"@ + trimmed(s@) + "' (need a unit: s/m/h/d)"@,
            ),
            MaxAge::BadNumber => refused_with(
                r,
                "invalid --max-age number in '"@ + trimmed(s@) + "'"@,
            ),
            MaxAge::BadUnit(u) => refused_with(
                r,
                "invalid --max-age unit '"@ + u + "' (use s/m/h/d)"@,
            ),
        },
{
    let t = trim(s);
    let c = chars_of(t.as_str());
    let mut k: usize = 0;
    while k < c.len() && c[k] >= '0' && c[k] <= '9'
        invariant
            k <= c@.len(),
            c@ == t@,
            forall|j: int| 0 <= j < k ==> is_digit(c@[j]),
        decreases c@.len() - k,
    {
        k += 1;
    }
    proof {
        lemma_digit_run(t@, k as int);
        assert(t@.subrange(0, k as int) =~= t@.take(k as int));
        assert(t@.subrange(k as int, t@.len() as int) =~= t@.skip(k as int));
    }
    if k == c.len() {
        return Err(
            StatuslineError::Config(
                concat3("invalid --max-age '", t.as_str(), "' (need a unit: s/m/h/d)"),
            ),
        );
    }
    let num = text_of(&c, 0, k);
    let unit = text_of(&c, k, c.len());
    let n: u64 = match parse_digits(num.as_str()) {
        Some(n) => n,
        None => {
            return Err(bad_number(t.as_str()));
        },
    };
    let per: u64 = if same(unit.as_str(), "s") {
        1
    } else if same(unit.as_str(), "m") {
        60
    } else if same(unit.as_str(), "h") {
        3600
    } else if same(unit.as_str(), "d") {
        86_400
    } else {
        return Err(
            StatuslineError::Config(
                concat3("invalid --max-age unit '", unit.as_str(), "' (use s/m/h/d)"),
            ),
        );
    };
    match n.checked_mul(per) {
        Some(secs) => Ok(secs),
        None => Err(bad_number(t.as_str())),
    }
}

/// A compact age: `<1m`, `10m`, `2h`, `3d`. An age below zero reads like one of no
/// time.
pub open spec fn age_text(seconds: int) -> Seq<char> {
    if seconds < 60 {
        "<1m"@
    } else if seconds < 3600 {
        dec((seconds / 60) as nat) + "m"@
    } else if seconds < 86_400 {
        dec((seconds / 3600) as nat) + "h"@
    } else {
        dec((seconds / 86_400) as nat) + "d"@
    }
}

/// A compact age: `<1m`, `10m`, `2h`, `3d`.
pub fn humanize_age(seconds: i64) -> (r: String)
    ensures
        r@ == age_text(seconds as int),
{
    if seconds < 60 {
        "<1m".to_owned()
    } else if seconds < 3600 {
        concat2(u64_text((seconds / 60) as u64).as_str(), "m")
    } else if seconds < 86_400 {
        concat2(u64_text((seconds / 3600) as u64).as_str(), "h")
    } else {
        concat2(u64_text((seconds / 86_400) as u64).as_str(), "d")
    }
}

/// Whether an age has reached the threshold that a text states. A text that states
/// none, and an age below zero, are never stale.
pub open spec fn past_threshold(age: int, threshold: Seq<char>) -> bool {
    match read_max_age(threshold) {
        MaxAge::Seconds(max) => age >= 0 && age >= max,
        _ => false,
    }
}

/// Whether a cache of the given age, in seconds, is past its configured threshold.
pub fn is_stale(age_seconds: i64, threshold: &str) -> (r: bool)
    ensures
        r == past_threshold(age_seconds as int, threshold@),
{
    match parse_max_age(threshold) {
        Ok(max) => age_seconds >= 0 && age_seconds as u64 >= max,
        Err(_) => false,
    }
}

/// A fetch is skipped exactly when a cache younger than the stated age is there. An age
/// below zero counts as none.
pub open spec fn skips_fetch(max_age: Option<u64>, cache_age: Option<i64>) -> bool {
    match (max_age, cache_age) {
        (Some(max), Some(age)) => (if age < 0 {
            0
        } else {
            age as int
        }) < max,
        _ => false,
    }
}

/// Whether a cache is fresh enough to skip a fetch.
pub fn is_fresh(max_age: Option<u64>, cache_age: Option<i64>) -> (r: bool)
    ensures
        r == skips_fetch(max_age, cache_age),
{
    match (max_age, cache_age) {
        (Some(max), Some(age)) => {
            let a: u64 = if age < 0 {
                0
            } else {
                age as u64
            };
            a < max
        },
        _ => false,
    }
}

/// A cache of an age that is not below zero is either skipped as fresh or counts as
/// stale against the same limit, never both.
pub proof fn fresh_or_stale(spec_text: Seq<char>, max: u64, age: i64)
    requires
        read_max_age(spec_text) == MaxAge::Seconds(max),
        age >= 0,
    ensures
        skips_fetch(Some(max), Some(age)) != past_threshold(age as int, spec_text),
{
}

} // verus!
