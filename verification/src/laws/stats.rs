//! What an update adds to the statistics.

use crate::config::BurnRateConfig;
use crate::database::records::SessionUpdate;
use crate::database::tables::Moment;
use crate::double::Double;
use crate::laws::words::begins_with;
use crate::stats::session::{
    get_session_duration, get_session_duration_by_mode, session_was_reset, start_times_differ,
    with_tokens_seen, DailyFacts, DailyStats, MonthlyStats, SessionStats, StatsData, StatsFacts,
    StatsView, StoredFacts,
};
use crate::text::opt_view;
use vstd::prelude::*;

verus! {

/// What a day has come to; nothing where nothing was counted.
pub open spec fn day_so_far(s: StatsView, day: Seq<char>) -> DailyFacts {
    if s.daily.dom().contains(day) {
        s.daily[day]
    } else {
        DailyFacts {
            total_cost: Double { bits: 0 },
            sessions: Seq::empty(),
            lines_added: 0,
            lines_removed: 0,
        }
    }
}

/// What a month has come to; nothing where nothing was counted.
pub open spec fn month_so_far(s: StatsView, month: Seq<char>) -> MonthlyStats {
    if s.monthly.dom().contains(month) {
        s.monthly[month]
    } else {
        MonthlyStats {
            total_cost: Double { bits: 0 },
            sessions: 0,
            lines_added: 0,
            lines_removed: 0,
        }
    }
}

/// Whether the totals can hold so many more lines.
pub open spec fn can_hold(s: StatsView, at: Moment, added: int, removed: int) -> bool {
    &&& day_so_far(s, at.today@).lines_added + added <= u64::MAX
    &&& day_so_far(s, at.today@).lines_removed + removed <= u64::MAX
    &&& month_so_far(s, at.month@).lines_added + added <= u64::MAX
    &&& month_so_far(s, at.month@).lines_removed + removed <= u64::MAX
}

/// Whether the day and the month have gained so many lines of each kind.
pub open spec fn gained(s: StatsView, t: StatsView, at: Moment, added: int, removed: int) -> bool {
    &&& day_so_far(t, at.today@).lines_added - day_so_far(s, at.today@).lines_added == added
    &&& day_so_far(t, at.today@).lines_removed - day_so_far(s, at.today@).lines_removed == removed
    &&& month_so_far(t, at.month@).lines_added - month_so_far(s, at.month@).lines_added == added
    &&& month_so_far(t, at.month@).lines_removed - month_so_far(s, at.month@).lines_removed
        == removed
}

/// Whether the day, the month and the whole have each cost so much more.
pub open spec fn cost_more(s: StatsView, t: StatsView, at: Moment, more: Double) -> bool {
    &&& day_so_far(t, at.today@).total_cost == day_so_far(s, at.today@).total_cost.plus(more)
    &&& month_so_far(t, at.month@).total_cost == month_so_far(s, at.month@).total_cost.plus(more)
    &&& t.all_time.total_cost == s.all_time.total_cost.plus(more)
}

/// A session that goes on, and whose counters do not fall, adds what each of them has grown
/// by to the total of its own kind.
pub proof fn known_sessions_add_what_they_grew_by(
    s: StatsView,
    id: Seq<char>,
    u: SessionUpdate,
    at: Moment,
    store: StoredFacts,
)
    requires
        s.sessions.dom().contains(id),
        !store.was_reset,
        u.lines_added >= s.sessions[id].lines_added,
        u.lines_removed >= s.sessions[id].lines_removed,
        s.sessions[id].cost.at_most(u.cost),
        can_hold(
            s,
            at,
            u.lines_added - s.sessions[id].lines_added,
            u.lines_removed - s.sessions[id].lines_removed,
        ),
    ensures
        ({
            let t = s.after(id, u, at, store);
            let old = s.sessions[id];
            &&& gained(
                s,
                t,
                at,
                u.lines_added - old.lines_added,
                u.lines_removed - old.lines_removed,
            )
            &&& cost_more(s, t, at, u.cost.minus(old.cost))
            &&& t.all_time.sessions == s.all_time.sessions
        }),
{
}

/// A session that is new, or has started again, adds all that it says, and is one more.
pub proof fn new_sessions_add_all_they_say(
    s: StatsView,
    id: Seq<char>,
    u: SessionUpdate,
    at: Moment,
    store: StoredFacts,
)
    requires
        !s.sessions.dom().contains(id) || store.was_reset,
        can_hold(s, at, u.lines_added as int, u.lines_removed as int),
        Double::zero().at_most(u.cost),
        s.all_time.sessions < u64::MAX,
    ensures
        ({
            let t = s.after(id, u, at, store);
            &&& gained(s, t, at, u.lines_added as int, u.lines_removed as int)
            &&& cost_more(s, t, at, u.cost.minus(Double { bits: 0 }))
            &&& t.all_time.sessions == s.all_time.sessions + 1
        }),
{
}

/// Counters that have fallen below half of what they were have started again: all that they
/// say is added. Those that have fallen by less add nothing.
pub proof fn fallen_counters_start_again_or_add_nothing(
    s: StatsView,
    id: Seq<char>,
    u: SessionUpdate,
    at: Moment,
    store: StoredFacts,
)
    requires
        s.sessions.dom().contains(id),
        !store.was_reset,
        can_hold(s, at, u.lines_added as int, u.lines_removed as int),
        2 * u.lines_added < s.sessions[id].lines_added,
        u.lines_removed < s.sessions[id].lines_removed <= 2 * u.lines_removed,
    ensures
        gained(s, s.after(id, u, at, store), at, u.lines_added as int, 0),
{
}

/// What is known of a session after an update is what the update says, and the time, and
/// what the store says of its activity; it keeps its start and its largest context where it
/// goes on, and starts now where it does not.
pub proof fn sessions_are_what_was_said_last(
    s: StatsView,
    id: Seq<char>,
    u: SessionUpdate,
    at: Moment,
    store: StoredFacts,
)
    ensures
        ({
            let t = s.after(id, u, at, store);
            let new = t.sessions[id];
            let old = s.sessions[id];
            let goes_on = s.sessions.dom().contains(id) && !store.was_reset;
            &&& t.sessions.dom().contains(id)
            &&& new.cost == u.cost
            &&& new.lines_added == u.lines_added
            &&& new.lines_removed == u.lines_removed
            &&& new.last_updated == at.now@
            &&& new.active_time_seconds == store.active_time_seconds
            &&& new.last_activity == opt_view(store.last_activity)
            &&& goes_on ==> new.start_time == old.start_time && new.max_tokens_observed
                == old.max_tokens_observed
            &&& !goes_on ==> new.start_time == Some(at.now@) && new.max_tokens_observed is None
            &&& t.last_updated == at.now@
        }),
{
}

/// A day lists each of its sessions once, in the order in which they came.
pub proof fn days_list_their_sessions_once(
    s: StatsView,
    id: Seq<char>,
    u: SessionUpdate,
    at: Moment,
    store: StoredFacts,
)
    requires
        day_so_far(s, at.today@).sessions.no_duplicates(),
    ensures
        ({
            let before = day_so_far(s, at.today@).sessions;
            let after = day_so_far(s.after(id, u, at, store), at.today@).sessions;
            &&& after.contains(id)
            &&& after.no_duplicates()
            &&& before.contains(id) ==> after == before
            &&& !before.contains(id) ==> after == before.push(id)
        }),
{
    let before = day_so_far(s, at.today@).sessions;
    if !before.contains(id) {
        assert(before.push(id)[before.len() as int] == id);
    }
}

/// A month counts a session once: not where the store has seen it this month, nor where a
/// day of the month lists it, nor where today does; else it is one more.
pub proof fn months_count_a_session_once(
    s: StatsView,
    id: Seq<char>,
    u: SessionUpdate,
    at: Moment,
    store: StoredFacts,
    day: Seq<char>,
)
    requires
        month_so_far(s, at.month@).sessions < u64::MAX,
    ensures
        ({
            let before = month_so_far(s, at.month@).sessions;
            let after = month_so_far(s.after(id, u, at, store), at.month@).sessions;
            &&& store.seen_this_month ==> after == before
            &&& s.daily.dom().contains(day) && begins_with(day, at.month@)
                && s.daily[day].sessions.contains(id) ==> after == before
            &&& day_so_far(s, at.today@).sessions.contains(id) ==> after == before
            &&& !store.seen_this_month && !day_so_far(s, at.today@).sessions.contains(id) && (
            forall|d: Seq<char>|
                #![trigger s.daily.dom().contains(d)]
                s.daily.dom().contains(d) && begins_with(d, at.month@) ==> !s.daily[d].sessions.contains(
                    id,
                )) ==> after == before + 1
        }),
{
    if s.daily.dom().contains(day) && begins_with(day, at.month@) && s.daily[day].sessions.contains(
        id,
    ) {
        assert(crate::text::has_prefix(day, at.month@));
        assert(s.seen_in(at.month@, id));
    }
    if s.seen_in(at.month@, id) {
        let d = choose|d: Seq<char>| #[trigger]
            s.daily.dom().contains(d) && crate::text::has_prefix(d, at.month@)
                && s.daily[d].sessions.contains(id);
        assert(begins_with(d, at.month@));
    }
}

/// The largest context that was seen of a session is the larger of what was known and what
/// is seen now; nothing else of it changes, and nothing of any other.
pub proof fn the_largest_context_is_noted(
    sessions: Map<Seq<char>, StatsFacts>,
    id: Seq<char>,
    tokens: u32,
    other: Seq<char>,
)
    requires
        other != id,
    ensures
        ({
            let t = with_tokens_seen(sessions, id, tokens);
            let old = sessions[id];
            &&& !sessions.dom().contains(id) ==> t == sessions
            &&& sessions.dom().contains(id) ==> ({
                &&& t[id] == StatsFacts { max_tokens_observed: t[id].max_tokens_observed, ..old }
                &&& old.max_tokens_observed is None ==> t[id].max_tokens_observed == Some(tokens)
                &&& old.max_tokens_observed matches Some(n) ==> t[id].max_tokens_observed == Some(
                    if n > tokens {
                        n
                    } else {
                        tokens
                    },
                )
            })
            &&& t.dom().contains(other) == sessions.dom().contains(other)
            &&& sessions.dom().contains(other) ==> t[other] == sessions[other]
        }),
{
}

/// Two starts differ where they are more than a second apart, whichever is the earlier; a
/// start that is not known differs from none.
pub proof fn starts_a_second_apart_are_one(a: u64, b: u64, r: bool, none: bool)
    requires
        call_ensures(start_times_differ, (Some(a), Some(b)), r),
        call_ensures(start_times_differ, (None::<u64>, Some(b)), none),
    ensures
        r <==> !(a - 1 <= b <= a + 1),
        !none,
{
}

/// Only in the mode that resets does another start mean that the session has started again.
pub proof fn only_one_mode_resets(
    config: &BurnRateConfig,
    stored: Option<&str>,
    known: Option<&str>,
    r: bool,
)
    requires
        call_ensures(session_was_reset, (config, stored, known), r),
        config.mode@ != "auto_reset"@,
    ensures
        !r,
{
}

/// A session's duration is the time since its start; where active time is counted and
/// known, it is that instead, and in no other mode.
pub proof fn durations_are_counted_by_mode(
    data: &StatsData,
    config: &BurnRateConfig,
    id: &str,
    active: u64,
    now: u64,
    wall: Option<u64>,
    r: Option<u64>,
    without: Option<u64>,
)
    requires
        call_ensures(get_session_duration, (data, id, Some(now)), wall),
        call_ensures(get_session_duration_by_mode, (data, config, id, Some(active), Some(now)), r),
        call_ensures(
            get_session_duration_by_mode,
            (data, config, id, None::<u64>, Some(now)),
            without,
        ),
    ensures
        config.mode@ == "active_time"@ ==> r == Some(active),
        config.mode@ != "active_time"@ ==> r == wall,
        without == wall,
        data@.sessions.dom().contains(id@) && (data@.sessions[id@].start_time matches Some(t)
            && crate::clock::unix_time(t) matches Some(then) && then <= now) ==> wall == Some(
            (now - crate::clock::unix_time(data@.sessions[id@].start_time->Some_0)->Some_0) as u64,
        ),
        !data@.sessions.dom().contains(id@) ==> wall is None,
{
}

/// What the kept values say is what they hold, field by field.
pub proof fn statistics_say_what_they_hold(s: SessionStats, d: DailyStats)
    ensures
        s@.last_updated == s.last_updated@,
        s@.cost == s.cost,
        s@.lines_added == s.lines_added,
        s@.lines_removed == s.lines_removed,
        s@.start_time == opt_view(s.start_time),
        s@.max_tokens_observed == s.max_tokens_observed,
        s@.active_time_seconds == s.active_time_seconds,
        s@.last_activity == opt_view(s.last_activity),
        d@.total_cost == d.total_cost,
        d@.lines_added == d.lines_added,
        d@.lines_removed == d.lines_removed,
        d@.sessions.len() == d.sessions@.len(),
        forall|i: int| 0 <= i < d.sessions@.len() ==> #[trigger] d@.sessions[i] == d.sessions@[i]@,
{
}

/// An update is taken in exactly where the totals of lines and of sessions can hold it.
pub proof fn what_the_totals_hold_is_taken_in(
    s: StatsView,
    id: Seq<char>,
    u: SessionUpdate,
    at: Moment,
    store: StoredFacts,
)
    requires
        s.sessions.dom().contains(id),
        !store.was_reset,
        u.lines_added >= s.sessions[id].lines_added,
        u.lines_removed >= s.sessions[id].lines_removed,
    ensures
        s.has_room(id, u, at, store) <==> can_hold(
            s,
            at,
            u.lines_added - s.sessions[id].lines_added,
            u.lines_removed - s.sessions[id].lines_removed,
        ) && month_so_far(s, at.month@).sessions < u64::MAX && s.all_time.sessions < u64::MAX,
{
}

/// What the statistics say is what they hold, one by one.
pub proof fn all_statistics_say_what_they_hold(d: StatsData, k: Seq<char>)
    ensures
        d@.sessions.dom().contains(k) <==> d.sessions@.dom().contains(k),
        d.sessions@.dom().contains(k) ==> d@.sessions[k] == d.sessions@[k]@,
        d@.daily.dom().contains(k) <==> d.daily@.dom().contains(k),
        d.daily@.dom().contains(k) ==> d@.daily[k] == d.daily@[k]@,
        d@.monthly == d.monthly@,
        d@.all_time == d.all_time,
        d@.last_updated == d.last_updated@,
{
}

} // verus!
