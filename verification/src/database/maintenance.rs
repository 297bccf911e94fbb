//! Keeping the store small: what is old enough to go, and when to make room.

use crate::clock::{
    elapsed_whole, instant, read_instant, utc_text, whole_seconds, z_utc, Timestamp, DAY,
    FIRST_SECOND, LAST_SECOND,
};
use crate::text::{chars_of, same, text_of};
use vstd::prelude::*;

verus! {

/// What came of the maintenance.
#[derive(Debug, Clone, Copy, PartialEq, Eq, Structural)]
pub struct MaintenanceResult {
    pub checkpoint_done: bool,
    pub optimize_done: bool,
    pub vacuum_done: bool,
    pub prune_done: bool,
    pub records_pruned: usize,
    pub integrity_ok: bool,
}

/// For how many days rows are kept; zero for ever.
#[derive(Debug, Clone, Copy, PartialEq, Eq, Structural)]
pub struct RetentionConfig {
    pub retention_days_sessions: Option<u32>,
    pub retention_days_daily: Option<u32>,
    pub retention_days_monthly: Option<u32>,
}

/// For how many days rows are kept unless the settings say otherwise.
pub const DEFAULT_DAYS_SESSIONS: u32 = 90;

pub const DEFAULT_DAYS_DAILY: u32 = 365;

pub const DEFAULT_DAYS_MONTHLY: u32 = 0;

pub open spec fn days_or(days: Option<u32>, default: u32) -> u32 {
    match days {
        Some(d) => d,
        None => default,
    }
}

fn days_or_default(days: Option<u32>, default: u32) -> (r: u32)
    ensures
        r == days_or(days, default),
{
    match days {
        Some(d) => d,
        None => default,
    }
}

/// Before when rows go: sessions by a time, days by a date, months by a month. Absent
/// where none go.
#[derive(Debug)]
pub struct Cutoffs {
    pub sessions: Option<String>,
    pub daily: Option<String>,
    pub monthly: Option<String>,
}

/// Whether so many days back is still within the calendar.
pub open spec fn reaches_back(now: int, days: u32) -> bool {
    now - days * DAY >= FIRST_SECOND
}

/// Whether a cutoff is the time `days` back from `now`, without the last `tail` characters
/// of how that is written; or absent where no days are given.
pub open spec fn cuts_at(cutoff: Option<String>, now: int, days: u32, tail: int) -> bool {
    if days > 0 {
        let full = utc_text(now - days * DAY);
        cutoff matches Some(c) && c@ == full.take(full.len() - tail)
    } else {
        cutoff is None
    }
}

fn cutoff(now: i64, days: u32, tail: usize) -> (r: Option<String>)
    requires
        now <= LAST_SECOND,
        reaches_back(now as int, days),
        tail <= 20,
    ensures
        cuts_at(r, now as int, days, tail as int),
{
    if days > 0 {
        let text = z_utc(now - days as i64 * DAY);
        let c = chars_of(text.as_str());
        let n: usize = c.len();
        Some(text_of(&c, 0, n - tail))
    } else {
        None
    }
}

/// Before when rows go, at `now` in seconds since the Unix epoch.
pub fn prune_cutoffs(config: &RetentionConfig, now: i64) -> (r: Cutoffs)
    requires
        now <= LAST_SECOND,
        reaches_back(now as int, days_or(config.retention_days_sessions, DEFAULT_DAYS_SESSIONS)),
        reaches_back(now as int, days_or(config.retention_days_daily, DEFAULT_DAYS_DAILY)),
        reaches_back(now as int, days_or(config.retention_days_monthly, DEFAULT_DAYS_MONTHLY)),
    ensures
        // `2026-01-31T10:20:30`
        cuts_at(
            r.sessions,
            now as int,
            days_or(config.retention_days_sessions, DEFAULT_DAYS_SESSIONS),
            1,
        ),
        // `2026-01-31`
        cuts_at(
            r.daily,
            now as int,
            days_or(config.retention_days_daily, DEFAULT_DAYS_DAILY),
            10,
        ),
        // `2026-01`
        cuts_at(
            r.monthly,
            now as int,
            days_or(config.retention_days_monthly, DEFAULT_DAYS_MONTHLY),
            13,
        ),
{
    Cutoffs {
        sessions: cutoff(
            now,
            days_or_default(config.retention_days_sessions, DEFAULT_DAYS_SESSIONS),
            1,
        ),
        daily: cutoff(now, days_or_default(config.retention_days_daily, DEFAULT_DAYS_DAILY), 10),
        monthly: cutoff(
            now,
            days_or_default(config.retention_days_monthly, DEFAULT_DAYS_MONTHLY),
            13,
        ),
    }
}

/// Largest size, in bytes, that calls for no vacuum by itself: ten mebibytes.
pub const VACUUM_BYTES: i64 = 10_485_760;

/// Days without a vacuum, after which one is due.
pub const VACUUM_DAYS: i64 = 7;

/// Whether a vacuum is due by when the last one was. One that cannot be dated tells
/// nothing.
pub open spec fn vacuum_overdue(last: Option<Timestamp>, now: Timestamp) -> bool {
    match last {
        Some(t) => whole_seconds(t, now) >= (VACUUM_DAYS + 1) * DAY,
        None => true,
    }
}

/// Whether a vacuum is due by when the last one was.
pub fn is_vacuum_overdue(last: Option<Timestamp>, now: Timestamp) -> (r: bool)
    ensures
        r == vacuum_overdue(last, now),
{
    match last {
        Some(t) => elapsed_whole(t, now) >= 691_200,
        None => true,
    }
}

/// Whether a vacuum is due: the store is large, or the last vacuum is more than seven
/// whole days ago, or is not on record. `last` is how the last vacuum was dated.
pub fn should_vacuum(page_count: i64, page_size: i64, last: Option<&str>, now: Timestamp) -> (r: bool)
    requires
        i64::MIN <= page_count * page_size <= i64::MAX,
    ensures
        r == (page_count * page_size > VACUUM_BYTES || vacuum_overdue(
            match last {
                Some(t) => instant(t@),
                None => None,
            },
            now,
        )),
{
    if page_count * page_size > VACUUM_BYTES {
        return true;
    }
    match last {
        Some(t) => is_vacuum_overdue(read_instant(t), now),
        None => is_vacuum_overdue(None, now),
    }
}

/// What a maintenance does besides its checks.
#[derive(Debug, Clone, Copy, PartialEq, Eq, Structural)]
pub struct MaintenancePlan {
    pub prunes: bool,
    pub vacuums: bool,
}

/// What a maintenance does: it prunes unless that is not wanted, and vacuums where that is
/// asked for or due.
pub fn plan_maintenance(force_vacuum: bool, no_prune: bool, vacuum_due: bool) -> (r:
    MaintenancePlan)
    ensures
        r.prunes == !no_prune,
        r.vacuums == (force_vacuum || vacuum_due),
{
    MaintenancePlan { prunes: !no_prune, vacuums: force_vacuum || vacuum_due }
}

/// All that was pruned.
pub open spec fn sum(v: Seq<usize>) -> nat
    decreases v.len(),
{
    if v.len() == 0 {
        0
    } else {
        sum(v.drop_last()) + v.last() as nat
    }
}

proof fn lemma_sum_of_start(v: Seq<usize>, i: int)
    requires
        0 <= i <= v.len(),
    ensures
        sum(v.take(i)) <= sum(v),
    decreases v.len() - i,
{
    if i < v.len() {
        lemma_sum_of_start(v, i + 1);
        assert(v.take(i + 1).drop_last() =~= v.take(i));
    } else {
        assert(v.take(i) =~= v);
    }
}

/// What came of the maintenance: the status of the checkpoint (zero when done), what each
/// deletion removed, whether a vacuum was made, and what the integrity check said.
pub fn maintenance_result(
    checkpoint: i32,
    deleted: &Vec<usize>,
    vacuum_done: bool,
    integrity: &str,
) -> (r: MaintenanceResult)
    requires
        sum(deleted@) <= usize::MAX,
    ensures
        r == (MaintenanceResult {
            checkpoint_done: checkpoint == 0,
            optimize_done: true,
            vacuum_done,
            prune_done: sum(deleted@) > 0,
            records_pruned: sum(deleted@) as usize,
            integrity_ok: integrity@ == "ok"@,
        }),
{
    let n: usize = deleted.len();
    let mut total: usize = 0;
    let mut i: usize = 0;
    proof {
        assert(deleted@.take(0) =~= Seq::<usize>::empty());
    }
    while i < n
        invariant
            n == deleted@.len(),
            i <= n,
            total == sum(deleted@.take(i as int)),
            sum(deleted@) <= usize::MAX,
        decreases n - i,
    {
        proof {
            assert(deleted@.take(i + 1).drop_last() =~= deleted@.take(i as int));
            lemma_sum_of_start(deleted@, i + 1);
        }
        total += deleted[i];
        i += 1;
    }
    proof {
        assert(deleted@.take(n as int) =~= deleted@);
    }
    MaintenanceResult {
        checkpoint_done: checkpoint == 0,
        optimize_done: true,
        vacuum_done,
        prune_done: total > 0,
        records_pruned: total,
        integrity_ok: same(integrity, "ok"),
    }
}

} // verus!
