//! Points in time.

use crate::text::is_digit;
use vstd::prelude::*;

verus! {

/// A point in time: seconds since the Unix epoch, and nanoseconds after that.
#[derive(Debug, Clone, Copy, PartialEq, Eq, Structural)]
pub struct Timestamp {
    pub seconds: i64,
    pub nanos: u32,
}

/// Whole seconds from `then` to `now`, rounded down.
pub open spec fn seconds_between(then: Timestamp, now: Timestamp) -> int {
    now.seconds - then.seconds - (if now.nanos < then.nanos {
        1int
    } else {
        0int
    })
}

/// Whole seconds from `then` to `now`, rounded down. Negative when `then` lies ahead.
pub fn elapsed(then: Timestamp, now: Timestamp) -> (r: i64)
    requires
        i64::MIN <= seconds_between(then, now) <= i64::MAX,
    ensures
        r == seconds_between(then, now),
{
    let d: i128 = now.seconds as i128 - then.seconds as i128;
    let e: i128 = if now.nanos < then.nanos {
        d - 1
    } else {
        d
    };
    e as i64
}

/// The point in time that a text names in RFC 3339, as `chrono` reads it: seconds since the
/// Unix epoch, and nanoseconds after that.
pub uninterp spec fn rfc3339_instant(text: Seq<char>) -> Option<(i64, u32)>;

/// Reads `text` with `chrono::DateTime::parse_from_rfc3339` and takes its `timestamp` and
/// `timestamp_subsec_nanos`. Claims that the outcome depends on the text alone; which
/// texts are read, and as what, is left to that crate.
#[verifier::external_body]
fn read_rfc3339(text: &str) -> (r: Option<(i64, u32)>)
    ensures
        r == rfc3339_instant(text@),
{
    match chrono::DateTime::parse_from_rfc3339(text) {
        Ok(t) => Some((t.timestamp(), t.timestamp_subsec_nanos())),
        Err(_) => None,
    }
}

/// The point in time that a text names.
pub open spec fn instant(text: Seq<char>) -> Option<Timestamp> {
    match rfc3339_instant(text) {
        Some(t) => Some(Timestamp { seconds: t.0, nanos: t.1 }),
        None => None,
    }
}

/// The point in time that a text names in RFC 3339.
pub fn read_instant(text: &str) -> (r: Option<Timestamp>)
    ensures
        r == instant(text@),
{
    match read_rfc3339(text) {
        Some(t) => Some(Timestamp { seconds: t.0, nanos: t.1 }),
        None => None,
    }
}

/// Seconds since the Unix epoch, of a point in time that is not before it.
pub open spec fn since_epoch(t: Option<Timestamp>) -> Option<u64> {
    match t {
        Some(x) => if x.seconds >= 0 {
            Some(x.seconds as u64)
        } else {
            None
        },
        None => None,
    }
}

/// The Unix time that a text names.
pub open spec fn unix_time(text: Seq<char>) -> Option<u64> {
    since_epoch(instant(text))
}

/// Seconds since the Unix epoch, of a point in time that is not before it.
pub fn unix_seconds(t: Option<Timestamp>) -> (r: Option<u64>)
    ensures
        r == since_epoch(t),
{
    match t {
        Some(x) => {
            if x.seconds >= 0 {
                Some(x.seconds as u64)
            } else {
                None
            }
        },
        None => None,
    }
}

/// The Unix time that a text names in RFC 3339.
pub fn parse_iso8601_to_unix(text: &str) -> (r: Option<u64>)
    ensures
        r == unix_time(text@),
{
    unix_seconds(read_instant(text))
}

/// Seconds from `then` to `now`; none where `then` lies ahead.
pub open spec fn seconds_since(then: Option<u64>, now: Option<u64>) -> Option<u64> {
    match (then, now) {
        (Some(t), Some(n)) => if n >= t {
            Some((n - t) as u64)
        } else {
            Some(0)
        },
        _ => None,
    }
}

/// Seconds from `then` to `now`, zero where `then` lies ahead; absent where either is.
pub fn duration_since(then: Option<u64>, now: Option<u64>) -> (r: Option<u64>)
    ensures
        r == seconds_since(then, now),
{
    match (then, now) {
        (Some(t), Some(n)) => {
            if n >= t {
                Some(n - t)
            } else {
                Some(0)
            }
        },
        _ => None,
    }
}

/// Whole seconds from `then` to `now`, rounded towards zero.
pub open spec fn whole_seconds(then: Timestamp, now: Timestamp) -> int {
    let down = seconds_between(then, now);
    if down < 0 && then.nanos != now.nanos {
        down + 1
    } else {
        down
    }
}

/// Whole seconds from `then` to `now`, rounded towards zero. Negative when `then` lies
/// ahead.
pub fn elapsed_whole(then: Timestamp, now: Timestamp) -> (r: i128)
    ensures
        r == whole_seconds(then, now),
{
    let d: i128 = now.seconds as i128 - then.seconds as i128;
    let down: i128 = if now.nanos < then.nanos {
        d - 1
    } else {
        d
    };
    if down < 0 && then.nanos != now.nanos {
        down + 1
    } else {
        down
    }
}

/// Seconds in a day.
pub const DAY: i64 = 86_400;

/// The first and the last second that the calendar reaches.
pub const FIRST_SECOND: i64 = -8_334_601_228_800;

pub const LAST_SECOND: i64 = 8_210_266_876_799;

/// A second written out in UTC, as `chrono` writes it.
pub uninterp spec fn utc_text(seconds: int) -> Seq<char>;

/// The characters that a date and time in UTC is written with.
pub open spec fn is_stamp_char(c: char) -> bool {
    is_digit(c) || c == '-' || c == 'T' || c == ':' || c == 'Z'
}

/// Formats `seconds` with `chrono::DateTime::format` as `%Y-%m-%dT%H:%M:%SZ`. Claims
/// that the outcome depends on the argument alone and has at least twenty characters, and
/// that within the years 0 to 9999 it is twenty characters long, has only the characters
/// of a stamp and ends in `Z`; which digits it shows is left to that crate.
#[verifier::external_body]
pub(crate) fn z_utc(seconds: i64) -> (r: String)
    requires
        FIRST_SECOND <= seconds <= LAST_SECOND,
    ensures
        r@ == utc_text(seconds as int),
        r@.len() >= 20,
        -62_167_219_200 <= seconds <= 253_402_300_799 ==> r@.len() == 20 && r@[19] == 'Z'
            && forall|i: int| 0 <= i < 20 ==> is_stamp_char(#[trigger] r@[i]),
{
    chrono::DateTime::from_timestamp(seconds, 0).expect("within the calendar").format(
        "%Y-%m-%dT%H:%M:%SZ",
    ).to_string()
}

} // verus!
