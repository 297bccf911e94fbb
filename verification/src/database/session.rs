//! What one update changes.

use crate::config::BurnRateConfig;
use crate::database::records::{
    copied, ArchiveFacts, ArchiveRecord, Attribution, PeriodTotals, SessionFacts, SessionRecord,
    SessionUpdate, Tokens,
};
use crate::double::{
    adding_never_lowers, differences_of_growing_numbers, nothing_is_left, Double,
};
use crate::text::{opt_view, same};
use vstd::prelude::*;

verus! {

// ---------------------------------------------------------------------------
// Counters that start again
// ---------------------------------------------------------------------------

/// What a counter has grown by, from `old` to `new`. A counter that fell below half of
/// what it was has started again, so that all of it is new; one that fell by less was
/// corrected, and nothing is new. A counter never takes anything away.
pub open spec fn growth(new: int, old: int) -> int {
    if new >= old {
        new - old
    } else if 2 * new < old {
        if new > 0 {
            new
        } else {
            0
        }
    } else {
        0
    }
}

/// What a counter has grown by.
pub fn clamp_reset_delta(new: i64, old: i64) -> (r: i128)
    ensures
        r == growth(new as int, old as int),
{
    let n: i128 = new as i128;
    let o: i128 = old as i128;
    if n >= o {
        n - o
    } else if 2 * n < o && n > 0 {
        n
    } else {
        0
    }
}

/// A counter never takes anything away from a total, and never counts for more than it
/// says, or than it has grown.
pub proof fn growth_never_subtracts(new: int, old: int)
    requires
        old >= 0,
    ensures
        growth(new, old) >= 0,
        new >= 0 ==> growth(new, old) <= new,
{
}

/// What a whole-number counter that only grows has grown by over several readings is what
/// the last reading says more than the first.
pub proof fn growth_adds_up(a: int, b: int, c: int)
    requires
        a <= b <= c,
    ensures
        growth(b, a) + growth(c, b) == growth(c, a),
{
}

/// A reading that is repeated adds nothing.
pub proof fn repeated_reading_adds_nothing(n: int)
    ensures
        growth(n, n) == 0,
{
}

/// What a cost has grown by, by the same rule.
pub open spec fn cost_growth(new: Double, old: Double) -> Double {
    if old.at_most(new) {
        new.minus(old)
    } else if new.times(2).below(old) && new.is_positive() {
        new
    } else {
        Double::zero()
    }
}

/// What a cost has grown by.
pub fn clamp_reset_cost(new: Double, old: Double) -> (r: Double)
    ensures
        r == cost_growth(new, old),
{
    if old.not_above(&new) {
        new.difference(&old)
    } else if new.product(2).less_than(&old) && new.positive() {
        new
    } else {
        Double { bits: 0 }
    }
}

/// A cost never takes anything away from a total.
pub proof fn cost_growth_never_subtracts(new: Double, old: Double)
    requires
        new.is_finite(),
        old.is_finite(),
    ensures
        Double::zero().at_most(cost_growth(new, old)),
{
    if old.at_most(new) {
        differences_of_growing_numbers(new, old);
    }
}

/// A cost that is repeated adds nothing.
pub proof fn repeated_cost_adds_nothing(c: Double)
    requires
        c.is_finite(),
    ensures
        cost_growth(c, c) == Double::zero(),
{
    nothing_is_left(c);
}

/// What a count of tokens has grown by. Counts may seem to fall, when older messages are
/// no longer read; nothing is taken away then.
pub open spec fn token_growth(new: int, old: int) -> int {
    if new > old {
        new - old
    } else {
        0
    }
}

fn token_delta(new: i64, old: i64) -> (r: i128)
    ensures
        r == token_growth(new as int, old as int),
{
    if new > old {
        new as i128 - old as i128
    } else {
        0
    }
}

pub open spec fn larger(a: i64, b: i64) -> i64 {
    if a >= b {
        a
    } else {
        b
    }
}

fn larger_of(a: i64, b: i64) -> (r: i64)
    ensures
        r == larger(a, b),
{
    if a >= b {
        a
    } else {
        b
    }
}

// ---------------------------------------------------------------------------
// How time is counted
// ---------------------------------------------------------------------------

/// How a session's time is counted.
#[derive(Debug, Clone, Copy, PartialEq, Eq, Structural)]
pub enum BurnMode {
    /// From the start on, breaks included.
    WallClock,
    /// Without the breaks.
    ActiveTime,
    /// From the last long break on.
    AutoReset,
}

/// The mode that a setting names; wall clock unless it names another.
pub open spec fn burn_mode(name: Seq<char>) -> BurnMode {
    if name == "active_time"@ {
        BurnMode::ActiveTime
    } else if name == "auto_reset"@ {
        BurnMode::AutoReset
    } else {
        BurnMode::WallClock
    }
}

/// The mode that a setting names; wall clock unless it names another.
pub fn burn_mode_of(name: &str) -> (r: BurnMode)
    ensures
        r == burn_mode(name@),
{
    if same(name, "active_time") {
        BurnMode::ActiveTime
    } else if same(name, "auto_reset") {
        BurnMode::AutoReset
    } else {
        BurnMode::WallClock
    }
}

/// The break, in seconds, from which on a session counts as idle.
pub open spec fn long_break(config: BurnRateConfig) -> nat {
    config.inactivity_threshold_minutes as nat * 60
}

fn long_break_of(config: &BurnRateConfig) -> (r: u64)
    ensures
        r == long_break(*config),
{
    config.inactivity_threshold_minutes as u64 * 60
}

/// Whether a session that was idle for so long starts again.
pub open spec fn starts_again(config: BurnRateConfig, idle: Option<u64>) -> bool {
    burn_mode(config.mode@) is AutoReset && (idle matches Some(t) && t >= long_break(config))
}

/// Whether a session that was idle for so long starts again: in the mode that resets,
/// after a long break. `idle` is absent where the last activity is not known.
pub fn should_reset(config: &BurnRateConfig, idle: Option<u64>) -> (r: bool)
    ensures
        r == starts_again(*config, idle),
{
    match burn_mode_of(config.mode.as_str()) {
        BurnMode::AutoReset => match idle {
            Some(t) => t >= long_break_of(config),
            None => false,
        },
        _ => false,
    }
}

/// The active time that is stored, if it is to change.
pub open spec fn new_active_time(
    config: BurnRateConfig,
    old: Option<SessionFacts>,
    reported: Option<u64>,
    idle: Option<u64>,
) -> Option<int> {
    match burn_mode(config.mode@) {
        BurnMode::ActiveTime => {
            let before = match old {
                Some(r) => match r.active_time_seconds {
                    Some(t) => t as int,
                    None => 0,
                },
                None => 0,
            };
            let active_before = match old {
                Some(r) => r.last_activity is Some,
                None => false,
            };
            if !active_before {
                Some(0)
            } else {
                match idle {
                    Some(t) => if t < long_break(config) {
                        Some(before + t)
                    } else {
                        Some(before)
                    },
                    None => Some(before),
                }
            }
        },
        _ => match reported {
            Some(t) => Some(t as int),
            None => None,
        },
    }
}

/// Whether the active time can be stored.
pub open spec fn active_time_fits(
    config: BurnRateConfig,
    old: Option<SessionFacts>,
    reported: Option<u64>,
    idle: Option<u64>,
) -> bool {
    new_active_time(config, old, reported, idle) matches Some(t) ==> i64::MIN <= t <= i64::MAX
}

/// The facts of a record that may be absent.
pub open spec fn facts(r: Option<&SessionRecord>) -> Option<SessionFacts> {
    match r {
        Some(x) => Some(x@),
        None => None,
    }
}

/// The active time to store: breaks shorter than the threshold count as activity, longer
/// ones do not. Outside the mode that counts activity it is what was reported.
pub fn active_time(
    config: &BurnRateConfig,
    old: Option<&SessionRecord>,
    reported: Option<u64>,
    idle: Option<u64>,
) -> (r: Option<i64>)
    requires
        active_time_fits(*config, facts(old), reported, idle),
    ensures
        match r {
            Some(t) => new_active_time(*config, facts(old), reported, idle) == Some(t as int),
            None => new_active_time(*config, facts(old), reported, idle) is None,
        },
{
    match burn_mode_of(config.mode.as_str()) {
        BurnMode::ActiveTime => {
            let before: i64 = match old {
                Some(r) => match r.active_time_seconds {
                    Some(t) => t,
                    None => 0,
                },
                None => 0,
            };
            let active_before = match old {
                Some(r) => r.last_activity.is_some(),
                None => false,
            };
            if !active_before {
                Some(0)
            } else {
                match idle {
                    Some(t) => {
                        if t < long_break_of(config) {
                            let sum: i128 = before as i128 + t as i128;
                            Some(sum as i64)
                        } else {
                            Some(before)
                        }
                    },
                    None => Some(before),
                }
            }
        },
        _ => match reported {
            Some(t) => Some(t as i64),
            None => None,
        },
    }
}

/// The time of the last activity that is stored.
pub open spec fn new_last_activity(
    config: BurnRateConfig,
    reported: Option<Seq<char>>,
    now: Seq<char>,
) -> Seq<char> {
    match burn_mode(config.mode@) {
        BurnMode::WallClock => match reported {
            Some(t) => t,
            None => now,
        },
        _ => now,
    }
}

/// The time of the last activity to store: now, unless another is reported and nothing
/// is counted from it.
pub fn last_activity(config: &BurnRateConfig, reported: &Option<String>, now: &str) -> (r: String)
    ensures
        r@ == new_last_activity(*config, opt_view(*reported), now@),
{
    match burn_mode_of(config.mode.as_str()) {
        BurnMode::WallClock => match reported {
            Some(t) => t.clone(),
            None => now.to_owned(),
        },
        _ => now.to_owned(),
    }
}

// ---------------------------------------------------------------------------
// What is added to the totals
// ---------------------------------------------------------------------------

/// What an update adds to the totals of its day and month.
#[derive(Debug, Clone, Copy, PartialEq, Eq, Structural)]
pub struct Deltas {
    pub cost: Double,
    pub lines_added: i128,
    pub lines_removed: i128,
    pub input: i128,
    pub output: i128,
    pub cache_read: i128,
    pub cache_creation: i128,
}

/// What cost and lines are counted from.
#[derive(Debug, Clone, Copy, PartialEq, Eq, Structural)]
pub struct Baseline {
    pub cost: Double,
    pub lines_added: i64,
    pub lines_removed: i64,
}

/// What an update adds to a session that goes on.
pub open spec fn added_to(u: SessionUpdate, old: SessionFacts) -> Deltas {
    Deltas {
        cost: cost_growth(u.cost, old.cost),
        lines_added: growth(u.lines_added as int, old.lines_added as int) as i128,
        lines_removed: growth(u.lines_removed as int, old.lines_removed as int) as i128,
        input: token_growth(u.tokens().input as int, old.tokens.input as int) as i128,
        output: token_growth(u.tokens().output as int, old.tokens.output as int) as i128,
        cache_read: token_growth(
            u.tokens().cache_read as int,
            old.tokens.cache_read as int,
        ) as i128,
        cache_creation: token_growth(
            u.tokens().cache_creation as int,
            old.tokens.cache_creation as int,
        ) as i128,
    }
}

/// What an update adds when its session starts.
pub open spec fn added_anew(u: SessionUpdate) -> Deltas {
    Deltas {
        cost: u.cost,
        lines_added: u.lines_added as i128,
        lines_removed: u.lines_removed as i128,
        input: u.tokens().input as i128,
        output: u.tokens().output as i128,
        cache_read: u.tokens().cache_read as i128,
        cache_creation: u.tokens().cache_creation as i128,
    }
}

/// What an update adds when its session starts after a work period that was archived.
/// Tokens are not archived: all of them count.
pub open spec fn added_after(u: SessionUpdate, b: Baseline) -> Deltas {
    Deltas {
        cost: cost_growth(u.cost, b.cost),
        lines_added: growth(u.lines_added as int, b.lines_added as int) as i128,
        lines_removed: growth(u.lines_removed as int, b.lines_removed as int) as i128,
        ..added_anew(u)
    }
}

/// What an update adds. `archived` is the last work period of the session, and counts
/// only where there is no session to go on with.
pub open spec fn added(
    u: SessionUpdate,
    old: Option<SessionFacts>,
    archived: Option<Baseline>,
) -> Deltas {
    match old {
        Some(r) => added_to(u, r),
        None => match archived {
            Some(b) => added_after(u, b),
            None => added_anew(u),
        },
    }
}

/// What an update adds to the totals of its day and month.
pub fn session_deltas(
    update: &SessionUpdate,
    old: Option<&SessionRecord>,
    archived: Option<Baseline>,
) -> (r: Deltas)
    requires
        update.storable(),
    ensures
        r == added(*update, facts(old), archived),
{
    let t = update.reported_tokens();
    match old {
        Some(o) => Deltas {
            cost: clamp_reset_cost(update.cost, o.cost),
            lines_added: clamp_reset_delta(update.lines_added as i64, o.lines_added),
            lines_removed: clamp_reset_delta(update.lines_removed as i64, o.lines_removed),
            input: token_delta(t.input, o.tokens.input),
            output: token_delta(t.output, o.tokens.output),
            cache_read: token_delta(t.cache_read, o.tokens.cache_read),
            cache_creation: token_delta(t.cache_creation, o.tokens.cache_creation),
        },
        None => match archived {
            Some(b) => Deltas {
                cost: clamp_reset_cost(update.cost, b.cost),
                lines_added: clamp_reset_delta(update.lines_added as i64, b.lines_added),
                lines_removed: clamp_reset_delta(update.lines_removed as i64, b.lines_removed),
                input: t.input as i128,
                output: t.output as i128,
                cache_read: t.cache_read as i128,
                cache_creation: t.cache_creation as i128,
            },
            None => Deltas {
                cost: update.cost,
                lines_added: update.lines_added as i128,
                lines_removed: update.lines_removed as i128,
                input: t.input as i128,
                output: t.output as i128,
                cache_read: t.cache_read as i128,
                cache_creation: t.cache_creation as i128,
            },
        },
    }
}

/// No update takes anything away from a total, whatever came before it: neither a
/// counter that started again, nor a correction, nor tokens that are no longer read.
pub proof fn totals_never_fall(
    t: PeriodTotals,
    u: SessionUpdate,
    old: Option<SessionFacts>,
    archived: Option<Baseline>,
    count: i64,
)
    requires
        t.has_room_for(added(u, old, archived)),
        t.total_cost.can_grow(),
        u.cost.is_finite(),
        Double::zero().at_most(u.cost),
        old matches Some(r) ==> r.cost.is_finite(),
        archived matches Some(b) ==> b.cost.is_finite(),
    ensures
        ({
            let v = t.after(added(u, old, archived), count);
            &&& t.total_cost.at_most(v.total_cost)
            &&& t.total_lines_added <= v.total_lines_added
            &&& t.total_lines_removed <= v.total_lines_removed
            &&& t.tokens.input <= v.tokens.input
            &&& t.tokens.output <= v.tokens.output
            &&& t.tokens.cache_read <= v.tokens.cache_read
            &&& t.tokens.cache_creation <= v.tokens.cache_creation
        }),
{
    let d = added(u, old, archived);
    match old {
        Some(r) => {
            cost_growth_never_subtracts(u.cost, r.cost);
        },
        None => match archived {
            Some(b) => {
                cost_growth_never_subtracts(u.cost, b.cost);
            },
            None => {},
        },
    }
    adding_never_lowers(t.total_cost, d.cost);
}

/// Whether a number can be stored.
pub open spec fn in_range(n: int) -> bool {
    i64::MIN <= n <= i64::MAX
}

impl PeriodTotals {
    /// Totals before the first update.
    pub open spec fn none() -> PeriodTotals {
        PeriodTotals {
            total_cost: Double::zero(),
            total_lines_added: 0,
            total_lines_removed: 0,
            session_count: 0,
            tokens: Tokens { input: 0, output: 0, cache_read: 0, cache_creation: 0 },
        }
    }

    /// Whether the totals hold the sum.
    pub open spec fn has_room_for(self, d: Deltas) -> bool {
        &&& in_range(self.total_lines_added + d.lines_added)
        &&& in_range(self.total_lines_removed + d.lines_removed)
        &&& in_range(self.tokens.input + d.input)
        &&& in_range(self.tokens.output + d.output)
        &&& in_range(self.tokens.cache_read + d.cache_read)
        &&& in_range(self.tokens.cache_creation + d.cache_creation)
    }

    /// The totals after an update that adds `d`, of a period with `count` sessions.
    pub open spec fn after(self, d: Deltas, count: i64) -> PeriodTotals {
        PeriodTotals {
            total_cost: self.total_cost.plus(d.cost),
            total_lines_added: (self.total_lines_added + d.lines_added) as i64,
            total_lines_removed: (self.total_lines_removed + d.lines_removed) as i64,
            session_count: count,
            tokens: Tokens {
                input: (self.tokens.input + d.input) as i64,
                output: (self.tokens.output + d.output) as i64,
                cache_read: (self.tokens.cache_read + d.cache_read) as i64,
                cache_creation: (self.tokens.cache_creation + d.cache_creation) as i64,
            },
        }
    }

    pub fn empty() -> (r: PeriodTotals)
        ensures
            r == PeriodTotals::none(),
    {
        PeriodTotals {
            total_cost: Double { bits: 0 },
            total_lines_added: 0,
            total_lines_removed: 0,
            session_count: 0,
            tokens: Tokens { input: 0, output: 0, cache_read: 0, cache_creation: 0 },
        }
    }

    /// Whether the totals hold the sum.
    pub fn can_add(&self, d: &Deltas) -> (r: bool)
        ensures
            r == self.has_room_for(*d),
    {
        fits(self.total_lines_added, d.lines_added) && fits(
            self.total_lines_removed,
            d.lines_removed,
        ) && fits(self.tokens.input, d.input) && fits(self.tokens.output, d.output) && fits(
            self.tokens.cache_read,
            d.cache_read,
        ) && fits(self.tokens.cache_creation, d.cache_creation)
    }

    /// Add what an update adds, and set how many sessions the period has.
    pub fn add(&self, d: &Deltas, count: i64) -> (r: PeriodTotals)
        requires
            self.has_room_for(*d),
        ensures
            r == self.after(*d, count),
            r.total_lines_added == self.total_lines_added + d.lines_added,
            r.total_lines_removed == self.total_lines_removed + d.lines_removed,
    {
        PeriodTotals {
            total_cost: self.total_cost.sum(&d.cost),
            total_lines_added: plus(self.total_lines_added, d.lines_added),
            total_lines_removed: plus(self.total_lines_removed, d.lines_removed),
            session_count: count,
            tokens: Tokens {
                input: plus(self.tokens.input, d.input),
                output: plus(self.tokens.output, d.output),
                cache_read: plus(self.tokens.cache_read, d.cache_read),
                cache_creation: plus(self.tokens.cache_creation, d.cache_creation),
            },
        }
    }
}

fn fits(a: i64, b: i128) -> (r: bool)
    ensures
        r == in_range(a + b),
{
    match b.checked_add(a as i128) {
        Some(n) => -9_223_372_036_854_775_808 <= n && n <= 9_223_372_036_854_775_807,
        None => false,
    }
}

fn plus(a: i64, b: i128) -> (r: i64)
    requires
        in_range(a + b),
    ensures
        r == a + b,
{
    (b + a as i128) as i64
}

// ---------------------------------------------------------------------------
// The records after an update
// ---------------------------------------------------------------------------

/// The largest number of tokens seen, after another number is seen.
pub open spec fn most_tokens(old: Option<i64>, seen: Option<u32>) -> Option<i64> {
    match seen {
        Some(t) => {
            let before = match old {
                Some(b) => b,
                None => 0,
            };
            if t > before {
                Some(t as i64)
            } else {
                old
            }
        },
        None => old,
    }
}

fn most_tokens_of(old: Option<i64>, seen: Option<u32>) -> (r: Option<i64>)
    ensures
        r == most_tokens(old, seen),
{
    match seen {
        Some(t) => {
            let before: i64 = match old {
                Some(b) => b,
                None => 0,
            };
            if t as i64 > before {
                Some(t as i64)
            } else {
                old
            }
        },
        None => old,
    }
}

pub open spec fn no_attribution() -> Attribution {
    Attribution {
        agent_count: 0,
        agent_requests: 0,
        agent_input_tokens: 0,
        agent_output_tokens: 0,
        main_requests: 0,
        main_input_tokens: 0,
        main_output_tokens: 0,
    }
}

pub open spec fn stored(t: Option<int>) -> Option<i64> {
    match t {
        Some(n) => Some(n as i64),
        None => None,
    }
}

/// What is kept of a session after its first update.
pub open spec fn first_record(
    u: SessionUpdate,
    now: Seq<char>,
    active: Option<int>,
    activity: Seq<char>,
) -> SessionFacts {
    SessionFacts {
        start_time: now,
        last_updated: now,
        cost: u.cost,
        lines_added: u.lines_added as i64,
        lines_removed: u.lines_removed as i64,
        model_name: opt_view(u.model_name),
        workspace_dir: opt_view(u.workspace_dir),
        device_id: opt_view(u.device_id),
        tokens: u.tokens(),
        max_tokens_observed: match u.max_tokens_observed {
            Some(t) => Some(t as i64),
            None => None,
        },
        active_time_seconds: stored(active),
        last_activity: Some(activity),
        version: None,
        attribution: no_attribution(),
    }
}

/// What is kept of a session after a further update: the counters are those of the
/// update, the tokens never fall, and the start stays.
pub open spec fn next_record(
    old: SessionFacts,
    u: SessionUpdate,
    now: Seq<char>,
    active: Option<int>,
    activity: Seq<char>,
) -> SessionFacts {
    SessionFacts {
        start_time: old.start_time,
        last_updated: now,
        cost: u.cost,
        lines_added: u.lines_added as i64,
        lines_removed: u.lines_removed as i64,
        model_name: opt_view(u.model_name),
        workspace_dir: opt_view(u.workspace_dir),
        device_id: opt_view(u.device_id),
        tokens: Tokens {
            input: larger(old.tokens.input, u.tokens().input),
            output: larger(old.tokens.output, u.tokens().output),
            cache_read: larger(old.tokens.cache_read, u.tokens().cache_read),
            cache_creation: larger(old.tokens.cache_creation, u.tokens().cache_creation),
        },
        max_tokens_observed: most_tokens(old.max_tokens_observed, u.max_tokens_observed),
        active_time_seconds: match active {
            Some(n) => Some(n as i64),
            None => old.active_time_seconds,
        },
        last_activity: Some(activity),
        version: old.version,
        attribution: old.attribution,
    }
}

/// What is kept of a session after an update.
pub open spec fn record_after(
    old: Option<SessionFacts>,
    u: SessionUpdate,
    config: BurnRateConfig,
    now: Seq<char>,
    idle: Option<u64>,
) -> SessionFacts {
    let active = new_active_time(config, old, u.active_time_seconds, idle);
    let activity = new_last_activity(config, opt_view(u.last_activity), now);
    match old {
        Some(r) => next_record(r, u, now, active, activity),
        None => first_record(u, now, active, activity),
    }
}

/// What is kept of a session after an update. `idle` is the time since its last
/// activity, absent where that is not known.
pub fn updated_record(
    old: Option<&SessionRecord>,
    update: SessionUpdate,
    config: &BurnRateConfig,
    now: &str,
    idle: Option<u64>,
) -> (r: SessionRecord)
    requires
        update.storable(),
        active_time_fits(*config, facts(old), update.active_time_seconds, idle),
    ensures
        r@ == record_after(facts(old), update, *config, now@, idle),
{
    let active = active_time(config, old, update.active_time_seconds, idle);
    let activity = last_activity(config, &update.last_activity, now);
    let t = update.reported_tokens();
    match old {
        Some(o) => SessionRecord {
            start_time: o.start_time.clone(),
            last_updated: now.to_owned(),
            cost: update.cost,
            lines_added: update.lines_added as i64,
            lines_removed: update.lines_removed as i64,
            model_name: update.model_name,
            workspace_dir: update.workspace_dir,
            device_id: update.device_id,
            tokens: Tokens {
                input: larger_of(o.tokens.input, t.input),
                output: larger_of(o.tokens.output, t.output),
                cache_read: larger_of(o.tokens.cache_read, t.cache_read),
                cache_creation: larger_of(o.tokens.cache_creation, t.cache_creation),
            },
            max_tokens_observed: most_tokens_of(o.max_tokens_observed, update.max_tokens_observed),
            active_time_seconds: match active {
                Some(n) => Some(n),
                None => o.active_time_seconds,
            },
            last_activity: Some(activity),
            version: copied(&o.version),
            attribution: o.attribution,
        },
        None => SessionRecord {
            start_time: now.to_owned(),
            last_updated: now.to_owned(),
            cost: update.cost,
            lines_added: update.lines_added as i64,
            lines_removed: update.lines_removed as i64,
            model_name: update.model_name,
            workspace_dir: update.workspace_dir,
            device_id: update.device_id,
            tokens: t,
            max_tokens_observed: match update.max_tokens_observed {
                Some(m) => Some(m as i64),
                None => None,
            },
            active_time_seconds: active,
            last_activity: Some(activity),
            version: None,
            attribution: Attribution {
                agent_count: 0,
                agent_requests: 0,
                agent_input_tokens: 0,
                agent_output_tokens: 0,
                main_requests: 0,
                main_input_tokens: 0,
                main_output_tokens: 0,
            },
        },
    }
}

/// A session as it is archived: the period ended with the last update.
pub open spec fn archived_as(id: Seq<char>, r: SessionFacts, now: Seq<char>) -> ArchiveFacts {
    ArchiveFacts {
        session_id: id,
        start_time: r.start_time,
        end_time: r.last_updated,
        archived_at: now,
        cost: r.cost,
        lines_added: r.lines_added,
        lines_removed: r.lines_removed,
        active_time_seconds: r.active_time_seconds,
        last_activity: r.last_activity,
        model_name: r.model_name,
        workspace_dir: r.workspace_dir,
        device_id: r.device_id,
    }
}

/// Archive a session: keep its work period before its counters are reset.
pub fn archive_session(id: &str, r: &SessionRecord, now: &str) -> (a: ArchiveRecord)
    ensures
        a@ == archived_as(id@, r@, now@),
{
    ArchiveRecord {
        session_id: id.to_owned(),
        start_time: r.start_time.clone(),
        end_time: r.last_updated.clone(),
        archived_at: now.to_owned(),
        cost: r.cost,
        lines_added: r.lines_added,
        lines_removed: r.lines_removed,
        active_time_seconds: r.active_time_seconds,
        last_activity: copied(&r.last_activity),
        model_name: copied(&r.model_name),
        workspace_dir: copied(&r.workspace_dir),
        device_id: copied(&r.device_id),
    }
}

} // verus!
