//! Keeping the store, and telling the time.

use crate::clock::{
    instant, seconds_between, seconds_since, since_epoch, utc_text, whole_seconds, Timestamp,
};
use crate::database::maintenance::{
    maintenance_result, plan_maintenance, prune_cutoffs, should_vacuum, sum, Cutoffs,
    MaintenancePlan, MaintenanceResult, RetentionConfig,
};
use crate::database::opening::{plan_open, OpenPlan};
use crate::text::opt_view;
use vstd::prelude::*;

verus! {

// ---------------------------------------------------------------------------
// Time
// ---------------------------------------------------------------------------

/// The nanoseconds from one time to another.
pub open spec fn nanoseconds(then: Timestamp, now: Timestamp) -> int {
    (now.seconds - then.seconds) * 1_000_000_000 + (now.nanos - then.nanos)
}

/// The seconds between two times are whole, rounded down where an age is told and towards
/// zero where a duration is.
pub proof fn seconds_are_whole(then: Timestamp, now: Timestamp)
    requires
        then.nanos < 1_000_000_000,
        now.nanos < 1_000_000_000,
    ensures
        ({
            let exact = nanoseconds(then, now);
            let down = seconds_between(then, now);
            let near = whole_seconds(then, now);
            &&& down * 1_000_000_000 <= exact < (down + 1) * 1_000_000_000
            &&& exact >= 0 ==> near == down
            &&& exact < 0 ==> near * 1_000_000_000 >= exact && exact > (near - 1) * 1_000_000_000
        }),
{
}

/// The time since another is what the clock has moved on, and none where it has moved back;
/// it is not known where one of the two is not.
pub proof fn time_moves_on(then: u64, more: u64, any: Option<u64>)
    requires
        then + more <= u64::MAX,
    ensures
        seconds_since(Some(then), Some((then + more) as u64)) == Some(more),
        seconds_since(Some((then + more) as u64), Some(then)) == Some(0u64),
        seconds_since(None, any) is None,
        seconds_since(any, None) is None,
{
}

/// A time since the epoch is its seconds; a time before the epoch has none.
pub proof fn times_since_the_epoch(t: Timestamp)
    ensures
        t.seconds >= 0 ==> (since_epoch(Some(t)) matches Some(n) && n == t.seconds),
        t.seconds < 0 ==> since_epoch(Some(t)) is None,
        since_epoch(None) is None,
{
}

// ---------------------------------------------------------------------------
// The store
// ---------------------------------------------------------------------------

/// Sessions go after ninety days unless another number is given, days after a year, and
/// months never; where the number is zero, none go. Each kind of row has its own number.
pub proof fn rows_go_after_their_days(config: &RetentionConfig, now: i64, r: Cutoffs)
    requires
        call_ensures(prune_cutoffs, (config, now), r),
    ensures
        config.retention_days_sessions is None ==> opt_view(r.sessions) == Some(
            utc_text(now - 90 * 86_400).take(utc_text(now - 90 * 86_400).len() - 1),
        ),
        config.retention_days_daily is None ==> opt_view(r.daily) == Some(
            utc_text(now - 365 * 86_400).take(utc_text(now - 365 * 86_400).len() - 10),
        ),
        config.retention_days_monthly is None ==> r.monthly is None,
        config.retention_days_sessions == Some(0u32) ==> r.sessions is None,
        config.retention_days_daily == Some(0u32) ==> r.daily is None,
        config.retention_days_monthly == Some(0u32) ==> r.monthly is None,
        config.retention_days_sessions matches Some(n) ==> (n > 0 ==> opt_view(r.sessions) == Some(
            utc_text(now - n * 86_400).take(utc_text(now - n * 86_400).len() - 1),
        )),
        config.retention_days_daily matches Some(n) ==> (n > 0 ==> opt_view(r.daily) == Some(
            utc_text(now - n * 86_400).take(utc_text(now - n * 86_400).len() - 10),
        )),
        config.retention_days_monthly matches Some(n) ==> (n > 0 ==> opt_view(r.monthly) == Some(
            utc_text(now - n * 86_400).take(utc_text(now - n * 86_400).len() - 13),
        )),
{
}

/// Room is made where the store takes more than ten mebibytes, where it was not made for
/// eight days or more, and where it is not known when it was made last.
pub proof fn room_is_made_when_it_is_due(
    pages: i64,
    size: i64,
    last: &str,
    made: Timestamp,
    now: Timestamp,
    r: bool,
    never: bool,
)
    requires
        call_ensures(should_vacuum, (pages, size, Some(last), now), r),
        call_ensures(should_vacuum, (pages, size, None::<&str>, now), never),
        instant(last@) == Some(made),
        made.nanos < 1_000_000_000,
        now.nanos < 1_000_000_000,
    ensures
        r <==> pages * size > 10 * 1024 * 1024 || nanoseconds(made, now) >= 8 * 86_400
            * 1_000_000_000,
        never,
{
}

/// Rows go unless that is not wanted, and room is made where that is wanted or due.
pub proof fn upkeep_does_what_is_wanted(force: bool, keep: bool, due: bool, r: MaintenancePlan)
    requires
        call_ensures(plan_maintenance, (force, keep, due), r),
    ensures
        r.prunes <==> !keep,
        force ==> r.vacuums,
        due ==> r.vacuums,
        r.vacuums ==> force || due,
{
}

/// The upkeep reports what was done: the checkpoint by its status, the rows that went
/// together, the room that was made, and whether the store is sound.
pub proof fn upkeep_reports_what_was_done(
    checkpoint: i32,
    deleted: &Vec<usize>,
    vacuumed: bool,
    integrity: &str,
    r: MaintenanceResult,
)
    requires
        call_ensures(maintenance_result, (checkpoint, deleted, vacuumed, integrity), r),
        sum(deleted@) <= usize::MAX,
    ensures
        r.checkpoint_done <==> checkpoint == 0,
        r.vacuum_done == vacuumed,
        r.records_pruned == sum(deleted@),
        r.prune_done <==> r.records_pruned > 0,
        r.integrity_ok <==> integrity@ == "ok"@,
{
}

/// What went together is what each step took.
pub proof fn rows_are_counted_together(v: Seq<usize>, n: usize)
    ensures
        sum(v.push(n)) == sum(v) + n,
        sum(Seq::<usize>::empty()) == 0,
{
    assert(v.push(n).drop_last() =~= v);
}

/// A store without tables of sessions is new, and is created whole; any other only gets the
/// tables that it lacks. What was migrated is not migrated again.
pub proof fn stores_are_opened_as_they_are(tables: Option<i64>, migrated: bool, r: OpenPlan)
    requires
        call_ensures(plan_open, (tables, migrated), r),
    ensures
        (tables matches Some(n) && n > 0) ==> r.ensure_base_tables && !r.create_schema,
        (tables matches Some(n) ==> n <= 0) ==> r.create_schema && !r.ensure_base_tables,
        r.run_migrations <==> !migrated,
{
}

} // verus!
