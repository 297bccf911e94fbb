//! What an update of a session adds to the totals, and what it leaves of the session.

use crate::agents::AgentsSummary;
use crate::config::BurnRateConfig;
use crate::database::records::{PeriodTotals, SessionFacts, SessionUpdate, TokenBreakdown, Tokens};
use crate::database::tables::{imported, most_seen, Moment, TablesFacts};
use crate::double::Double;
use crate::stats::session::StatsFacts;
use crate::text::opt_view;
use vstd::prelude::*;

verus! {

/// What a day, or a month, has come to; nothing where nothing was counted.
pub open spec fn so_far(m: Map<Seq<char>, PeriodTotals>, period: Seq<char>) -> PeriodTotals {
    if m.dom().contains(period) {
        m[period]
    } else {
        PeriodTotals {
            total_cost: Double { bits: 0 },
            total_lines_added: 0,
            total_lines_removed: 0,
            session_count: 0,
            tokens: Tokens { input: 0, output: 0, cache_read: 0, cache_creation: 0 },
        }
    }
}

/// Whether the session is known and goes on: in the mode that resets, it has not been
/// idle for as many minutes as are allowed.
pub open spec fn goes_on(
    t: TablesFacts,
    id: Seq<char>,
    config: BurnRateConfig,
    idle: Option<u64>,
) -> bool {
    &&& t.sessions.dom().contains(id)
    &&& config.mode@ == "auto_reset"@ ==> (idle matches Some(seconds) ==> seconds
        < config.inactivity_threshold_minutes * 60)
}

/// Whether the session is known but was idle for so long that it starts again.
pub open spec fn pauses(
    t: TablesFacts,
    id: Seq<char>,
    config: BurnRateConfig,
    idle: Option<u64>,
) -> bool {
    &&& t.sessions.dom().contains(id)
    &&& config.mode@ == "auto_reset"@
    &&& idle matches Some(seconds) && seconds >= config.inactivity_threshold_minutes * 60
}

/// Whether nothing is known of the session, neither as it goes on nor from before a pause.
pub open spec fn is_unknown(t: TablesFacts, id: Seq<char>) -> bool {
    &&& !t.sessions.dom().contains(id)
    &&& forall|i: int| 0 <= i < t.archive.len() ==> (#[trigger] t.archive[i]).session_id != id
}

/// Whether a total can take in so much more.
pub open spec fn takes(total: i64, more: int) -> bool {
    i64::MIN <= total + more <= i64::MAX
}

/// What a count says more than another; nothing where it says less.
pub open spec fn surplus(new: int, old: int) -> int {
    if new > old {
        new - old
    } else {
        0
    }
}

/// While a session goes on, each kind of token adds to the day and to the month what the
/// session's count of that same kind has grown by since its last update, and nothing where
/// that count has fallen.
pub proof fn each_kind_of_token_grows_by_its_own(
    t: TablesFacts,
    id: Seq<char>,
    u: SessionUpdate,
    b: TokenBreakdown,
    config: BurnRateConfig,
    at: Moment,
    idle: Option<u64>,
    today: i64,
    month: i64,
)
    requires
        goes_on(t, id, config, idle),
        u.token_breakdown == Some(b),
        ({
            let old = t.sessions[id].tokens;
            let d = so_far(t.daily, at.today@).tokens;
            let m = so_far(t.monthly, at.month@).tokens;
            &&& takes(d.input, surplus(b.input_tokens as int, old.input as int))
            &&& takes(d.output, surplus(b.output_tokens as int, old.output as int))
            &&& takes(d.cache_read, surplus(b.cache_read_tokens as int, old.cache_read as int))
            &&& takes(
                d.cache_creation,
                surplus(b.cache_creation_tokens as int, old.cache_creation as int),
            )
            &&& takes(m.input, surplus(b.input_tokens as int, old.input as int))
            &&& takes(m.output, surplus(b.output_tokens as int, old.output as int))
            &&& takes(m.cache_read, surplus(b.cache_read_tokens as int, old.cache_read as int))
            &&& takes(
                m.cache_creation,
                surplus(b.cache_creation_tokens as int, old.cache_creation as int),
            )
        }),
    ensures
        ({
            let v = t.after(id, u, config, at, idle, today, month);
            let old = t.sessions[id].tokens;
            let d0 = so_far(t.daily, at.today@).tokens;
            let d1 = so_far(v.daily, at.today@).tokens;
            let m0 = so_far(t.monthly, at.month@).tokens;
            let m1 = so_far(v.monthly, at.month@).tokens;
            &&& d1.input - d0.input == surplus(b.input_tokens as int, old.input as int)
            &&& d1.output - d0.output == surplus(b.output_tokens as int, old.output as int)
            &&& d1.cache_read - d0.cache_read == surplus(
                b.cache_read_tokens as int,
                old.cache_read as int,
            )
            &&& d1.cache_creation - d0.cache_creation == surplus(
                b.cache_creation_tokens as int,
                old.cache_creation as int,
            )
            &&& m1.input - m0.input == surplus(b.input_tokens as int, old.input as int)
            &&& m1.output - m0.output == surplus(b.output_tokens as int, old.output as int)
            &&& m1.cache_read - m0.cache_read == surplus(
                b.cache_read_tokens as int,
                old.cache_read as int,
            )
            &&& m1.cache_creation - m0.cache_creation == surplus(
                b.cache_creation_tokens as int,
                old.cache_creation as int,
            )
        }),
{
    lemma_modes_differ();
}

proof fn lemma_modes_differ()
    ensures
        "active_time"@ != "auto_reset"@,
        "wall_clock"@ != "auto_reset"@,
        "wall_clock"@ != "active_time"@,
{
    reveal_strlit("active_time");
    reveal_strlit("auto_reset");
    reveal_strlit("wall_clock");
    assert("active_time"@.len() == 11);
    assert("auto_reset"@.len() == 10 && "wall_clock"@.len() == 10);
    assert("auto_reset"@[0] == 'a' && "wall_clock"@[0] == 'w');
}

/// An update that mentions no tokens adds none, while its session goes on and after it was
/// idle, as long as the counts that are known are none below zero.
pub proof fn no_tokens_mentioned_add_none(
    t: TablesFacts,
    id: Seq<char>,
    u: SessionUpdate,
    config: BurnRateConfig,
    at: Moment,
    idle: Option<u64>,
    today: i64,
    month: i64,
)
    requires
        u.token_breakdown is None,
        t.sessions.dom().contains(id) ==> ({
            let old = t.sessions[id].tokens;
            old.input >= 0 && old.output >= 0 && old.cache_read >= 0 && old.cache_creation >= 0
        }),
    ensures
        ({
            let v = t.after(id, u, config, at, idle, today, month);
            &&& so_far(v.daily, at.today@).tokens == so_far(t.daily, at.today@).tokens
            &&& so_far(v.monthly, at.month@).tokens == so_far(t.monthly, at.month@).tokens
        }),
{
}

/// Whether lines can be counted on the day and on the month.
pub open spec fn lines_fit(
    t: TablesFacts,
    at: Moment,
    added: int,
    removed: int,
) -> bool {
    let d = so_far(t.daily, at.today@);
    let m = so_far(t.monthly, at.month@);
    &&& takes(d.total_lines_added, added)
    &&& takes(d.total_lines_removed, removed)
    &&& takes(m.total_lines_added, added)
    &&& takes(m.total_lines_removed, removed)
}

/// Whether the totals of the day and of the month have grown by so many lines.
pub open spec fn lines_grew(
    t: TablesFacts,
    v: TablesFacts,
    at: Moment,
    added: int,
    removed: int,
) -> bool {
    let d0 = so_far(t.daily, at.today@);
    let d1 = so_far(v.daily, at.today@);
    let m0 = so_far(t.monthly, at.month@);
    let m1 = so_far(v.monthly, at.month@);
    &&& d1.total_lines_added - d0.total_lines_added == added
    &&& d1.total_lines_removed - d0.total_lines_removed == removed
    &&& m1.total_lines_added - m0.total_lines_added == added
    &&& m1.total_lines_removed - m0.total_lines_removed == removed
}

/// While a session goes on and its counters do not fall, the day and the month gain the
/// lines added and the lines removed that the session has gained of each, and the money
/// that it has cost since.
pub proof fn lines_and_money_grow_by_their_own(
    t: TablesFacts,
    id: Seq<char>,
    u: SessionUpdate,
    config: BurnRateConfig,
    at: Moment,
    idle: Option<u64>,
    today: i64,
    month: i64,
)
    requires
        goes_on(t, id, config, idle),
        u.lines_added >= t.sessions[id].lines_added,
        u.lines_removed >= t.sessions[id].lines_removed,
        lines_fit(
            t,
            at,
            u.lines_added - t.sessions[id].lines_added,
            u.lines_removed - t.sessions[id].lines_removed,
        ),
        t.sessions[id].cost.at_most(u.cost),
    ensures
        ({
            let v = t.after(id, u, config, at, idle, today, month);
            let old = t.sessions[id];
            let more = u.cost.minus(old.cost);
            &&& lines_grew(
                t,
                v,
                at,
                u.lines_added - old.lines_added,
                u.lines_removed - old.lines_removed,
            )
            &&& so_far(v.daily, at.today@).total_cost == so_far(
                t.daily,
                at.today@,
            ).total_cost.plus(more)
            &&& so_far(v.monthly, at.month@).total_cost == so_far(
                t.monthly,
                at.month@,
            ).total_cost.plus(more)
        }),
{
    lemma_modes_differ();
}

/// Counters that have fallen below half of what they were have started again: all that
/// they say is new.
pub proof fn counters_that_start_again_are_new(
    t: TablesFacts,
    id: Seq<char>,
    u: SessionUpdate,
    config: BurnRateConfig,
    at: Moment,
    idle: Option<u64>,
    today: i64,
    month: i64,
)
    requires
        goes_on(t, id, config, idle),
        2 * u.lines_added < t.sessions[id].lines_added,
        2 * u.lines_removed < t.sessions[id].lines_removed,
        lines_fit(t, at, u.lines_added as int, u.lines_removed as int),
        u.cost.times(2).below(t.sessions[id].cost),
        u.cost.below(t.sessions[id].cost),
        u.cost.is_positive(),
    ensures
        ({
            let v = t.after(id, u, config, at, idle, today, month);
            &&& lines_grew(t, v, at, u.lines_added as int, u.lines_removed as int)
            &&& so_far(v.daily, at.today@).total_cost == so_far(
                t.daily,
                at.today@,
            ).total_cost.plus(u.cost)
            &&& so_far(v.monthly, at.month@).total_cost == so_far(
                t.monthly,
                at.month@,
            ).total_cost.plus(u.cost)
        }),
{
    lemma_modes_differ();
}

/// Counters that have fallen by less were corrected: nothing is new.
pub proof fn corrected_counters_add_nothing(
    t: TablesFacts,
    id: Seq<char>,
    u: SessionUpdate,
    config: BurnRateConfig,
    at: Moment,
    idle: Option<u64>,
    today: i64,
    month: i64,
)
    requires
        goes_on(t, id, config, idle),
        u.lines_added < t.sessions[id].lines_added <= 2 * u.lines_added,
        u.lines_removed < t.sessions[id].lines_removed <= 2 * u.lines_removed,
        u.cost.below(t.sessions[id].cost),
        t.sessions[id].cost.at_most(u.cost.times(2)),
    ensures
        ({
            let v = t.after(id, u, config, at, idle, today, month);
            &&& lines_grew(t, v, at, 0, 0)
            &&& so_far(v.daily, at.today@).total_cost == so_far(
                t.daily,
                at.today@,
            ).total_cost.plus(Double { bits: 0 })
        }),
{
    lemma_modes_differ();
}

/// The first update of a session counts for all that it says, each count for its own total.
pub proof fn first_update_counts_whole(
    t: TablesFacts,
    id: Seq<char>,
    u: SessionUpdate,
    b: TokenBreakdown,
    config: BurnRateConfig,
    at: Moment,
    idle: Option<u64>,
    today: i64,
    month: i64,
)
    requires
        is_unknown(t, id),
        u.token_breakdown == Some(b),
        lines_fit(t, at, u.lines_added as int, u.lines_removed as int),
        ({
            let d = so_far(t.daily, at.today@).tokens;
            let m = so_far(t.monthly, at.month@).tokens;
            &&& takes(d.input, b.input_tokens as int)
            &&& takes(d.output, b.output_tokens as int)
            &&& takes(d.cache_read, b.cache_read_tokens as int)
            &&& takes(d.cache_creation, b.cache_creation_tokens as int)
            &&& takes(m.input, b.input_tokens as int)
            &&& takes(m.output, b.output_tokens as int)
            &&& takes(m.cache_read, b.cache_read_tokens as int)
            &&& takes(m.cache_creation, b.cache_creation_tokens as int)
        }),
    ensures
        ({
            let v = t.after(id, u, config, at, idle, today, month);
            let d0 = so_far(t.daily, at.today@);
            let d1 = so_far(v.daily, at.today@);
            let m0 = so_far(t.monthly, at.month@);
            let m1 = so_far(v.monthly, at.month@);
            &&& lines_grew(t, v, at, u.lines_added as int, u.lines_removed as int)
            &&& d1.total_cost == d0.total_cost.plus(u.cost)
            &&& m1.total_cost == m0.total_cost.plus(u.cost)
            &&& d1.tokens.input - d0.tokens.input == b.input_tokens
            &&& d1.tokens.output - d0.tokens.output == b.output_tokens
            &&& d1.tokens.cache_read - d0.tokens.cache_read == b.cache_read_tokens
            &&& d1.tokens.cache_creation - d0.tokens.cache_creation == b.cache_creation_tokens
            &&& m1.tokens.input - m0.tokens.input == b.input_tokens
            &&& m1.tokens.output - m0.tokens.output == b.output_tokens
            &&& m1.tokens.cache_read - m0.tokens.cache_read == b.cache_read_tokens
            &&& m1.tokens.cache_creation - m0.tokens.cache_creation == b.cache_creation_tokens
        }),
{
    crate::database::tables::newest_period_is_newest(t.archive, id);
}

/// The numbers of sessions that the day and the month are told of are the ones that they
/// hold afterwards, each its own.
pub proof fn session_counts_are_taken_over(
    t: TablesFacts,
    id: Seq<char>,
    u: SessionUpdate,
    config: BurnRateConfig,
    at: Moment,
    idle: Option<u64>,
    today: i64,
    month: i64,
)
    ensures
        ({
            let v = t.after(id, u, config, at, idle, today, month);
            &&& so_far(v.daily, at.today@).session_count == today
            &&& so_far(v.monthly, at.month@).session_count == month
        }),
{
}

/// What is known of a session after an update is what the update says of it: cost, lines,
/// model, directory and device, each from its own field.
pub proof fn a_session_is_what_was_said_last(
    t: TablesFacts,
    id: Seq<char>,
    u: SessionUpdate,
    config: BurnRateConfig,
    at: Moment,
    idle: Option<u64>,
    today: i64,
    month: i64,
)
    requires
        u.lines_added <= i64::MAX,
        u.lines_removed <= i64::MAX,
    ensures
        ({
            let s = t.after(id, u, config, at, idle, today, month).sessions[id];
            &&& s.last_updated == at.now@
            &&& s.cost == u.cost
            &&& s.lines_added == u.lines_added
            &&& s.lines_removed == u.lines_removed
            &&& s.model_name == opt_view(u.model_name)
            &&& s.workspace_dir == opt_view(u.workspace_dir)
            &&& s.device_id == opt_view(u.device_id)
        }),
{
}

/// While a session goes on, each kind of token is kept at the most that was said of that
/// kind, and so is the context that was seen; start, version and attribution stay.
pub proof fn a_session_keeps_the_most(
    t: TablesFacts,
    id: Seq<char>,
    u: SessionUpdate,
    b: TokenBreakdown,
    config: BurnRateConfig,
    at: Moment,
    idle: Option<u64>,
    today: i64,
    month: i64,
)
    requires
        goes_on(t, id, config, idle),
        u.token_breakdown == Some(b),
    ensures
        ({
            let old = t.sessions[id];
            let s = t.after(id, u, config, at, idle, today, month).sessions[id];
            &&& s.tokens.input == old.tokens.input + surplus(
                b.input_tokens as int,
                old.tokens.input as int,
            )
            &&& s.tokens.output == old.tokens.output + surplus(
                b.output_tokens as int,
                old.tokens.output as int,
            )
            &&& s.tokens.cache_read == old.tokens.cache_read + surplus(
                b.cache_read_tokens as int,
                old.tokens.cache_read as int,
            )
            &&& s.tokens.cache_creation == old.tokens.cache_creation + surplus(
                b.cache_creation_tokens as int,
                old.tokens.cache_creation as int,
            )
            &&& s.start_time == old.start_time
            &&& s.version == old.version
            &&& s.attribution == old.attribution
            &&& u.max_tokens_observed is None ==> s.max_tokens_observed == old.max_tokens_observed
            &&& u.max_tokens_observed matches Some(n) ==> ({
                &&& (old.max_tokens_observed matches Some(most) && n <= most)
                    ==> s.max_tokens_observed == old.max_tokens_observed
                &&& n > 0 && (old.max_tokens_observed matches Some(most) ==> n > most)
                    ==> s.max_tokens_observed == Some(n as i64)
            })
        }),
{
    lemma_modes_differ();
}

/// A session that starts, or starts again, starts now, with the tokens that the update
/// says and nobody's work attributed.
pub proof fn a_session_starts_afresh(
    t: TablesFacts,
    id: Seq<char>,
    u: SessionUpdate,
    b: TokenBreakdown,
    config: BurnRateConfig,
    at: Moment,
    idle: Option<u64>,
    today: i64,
    month: i64,
)
    requires
        !t.sessions.dom().contains(id) || pauses(t, id, config, idle),
        u.token_breakdown == Some(b),
    ensures
        ({
            let s = t.after(id, u, config, at, idle, today, month).sessions[id];
            &&& s.start_time == at.now@
            &&& s.tokens.input == b.input_tokens
            &&& s.tokens.output == b.output_tokens
            &&& s.tokens.cache_read == b.cache_read_tokens
            &&& s.tokens.cache_creation == b.cache_creation_tokens
            &&& s.version is None
            &&& s.attribution.agent_count == 0
            &&& s.attribution.agent_requests == 0
            &&& s.attribution.agent_input_tokens == 0
            &&& s.attribution.agent_output_tokens == 0
            &&& s.attribution.main_requests == 0
            &&& s.attribution.main_input_tokens == 0
            &&& s.attribution.main_output_tokens == 0
            &&& (s.max_tokens_observed is Some <==> u.max_tokens_observed is Some)
            &&& u.max_tokens_observed matches Some(n) ==> s.max_tokens_observed == Some(n as i64)
        }),
{
    lemma_modes_differ();
}

/// What is put away of a session that was idle is what was known of it, field by field,
/// with the time until which it lasted and the time at which it was put away; what was put
/// away before stays.
pub proof fn a_pause_puts_away_what_was_known(
    t: TablesFacts,
    id: Seq<char>,
    u: SessionUpdate,
    config: BurnRateConfig,
    at: Moment,
    idle: Option<u64>,
    today: i64,
    month: i64,
)
    requires
        pauses(t, id, config, idle),
    ensures
        ({
            let v = t.after(id, u, config, at, idle, today, month);
            let old = t.sessions[id];
            let put = v.archive.last();
            &&& v.archive.len() == t.archive.len() + 1
            &&& v.archive.drop_last() == t.archive
            &&& put.session_id == id
            &&& put.start_time == old.start_time
            &&& put.end_time == old.last_updated
            &&& put.archived_at == at.now@
            &&& put.cost == old.cost
            &&& put.lines_added == old.lines_added
            &&& put.lines_removed == old.lines_removed
            &&& put.active_time_seconds == old.active_time_seconds
            &&& put.last_activity == old.last_activity
            &&& put.model_name == old.model_name
            &&& put.workspace_dir == old.workspace_dir
            &&& put.device_id == old.device_id
        }),
{
    lemma_modes_differ();
}

/// Without a pause nothing is put away.
pub proof fn nothing_is_put_away_without_a_pause(
    t: TablesFacts,
    id: Seq<char>,
    u: SessionUpdate,
    config: BurnRateConfig,
    at: Moment,
    idle: Option<u64>,
    today: i64,
    month: i64,
)
    requires
        !pauses(t, id, config, idle),
    ensures
        t.after(id, u, config, at, idle, today, month).archive == t.archive,
{
    lemma_modes_differ();
}

/// After a pause, lines and money count for what they have grown by since the pause began,
/// and tokens count whole.
pub proof fn a_pause_counts_on(
    t: TablesFacts,
    id: Seq<char>,
    u: SessionUpdate,
    b: TokenBreakdown,
    config: BurnRateConfig,
    at: Moment,
    idle: Option<u64>,
    today: i64,
    month: i64,
)
    requires
        pauses(t, id, config, idle),
        forall|j: int|
            0 <= j < t.archive.len() && (#[trigger] t.archive[j]).session_id == id
                ==> !crate::text::comes_before(at.now@, t.archive[j].archived_at),
        u.token_breakdown == Some(b),
        u.lines_added >= t.sessions[id].lines_added,
        u.lines_removed >= t.sessions[id].lines_removed,
        t.sessions[id].cost.at_most(u.cost),
        lines_fit(
            t,
            at,
            u.lines_added - t.sessions[id].lines_added,
            u.lines_removed - t.sessions[id].lines_removed,
        ),
        ({
            let d = so_far(t.daily, at.today@).tokens;
            &&& takes(d.input, b.input_tokens as int)
            &&& takes(d.output, b.output_tokens as int)
            &&& takes(d.cache_read, b.cache_read_tokens as int)
            &&& takes(d.cache_creation, b.cache_creation_tokens as int)
        }),
    ensures
        ({
            let v = t.after(id, u, config, at, idle, today, month);
            let old = t.sessions[id];
            let d0 = so_far(t.daily, at.today@);
            let d1 = so_far(v.daily, at.today@);
            &&& lines_grew(
                t,
                v,
                at,
                u.lines_added - old.lines_added,
                u.lines_removed - old.lines_removed,
            )
            &&& d1.total_cost == d0.total_cost.plus(u.cost.minus(old.cost))
            &&& d1.tokens.input - d0.tokens.input == b.input_tokens
            &&& d1.tokens.output - d0.tokens.output == b.output_tokens
            &&& d1.tokens.cache_read - d0.tokens.cache_read == b.cache_read_tokens
            &&& d1.tokens.cache_creation - d0.tokens.cache_creation == b.cache_creation_tokens
        }),
{
    lemma_modes_differ();
    crate::database::tables::a_break_counts_nothing_twice(t, id, u, config, at.now@, idle);
}

/// In the mode that counts active time, a session is active for as long as its pauses are
/// short: a pause below the allowed minutes adds its seconds, a longer one none, and the
/// first update starts at none.
pub proof fn short_pauses_are_active_time(
    t: TablesFacts,
    id: Seq<char>,
    u: SessionUpdate,
    config: BurnRateConfig,
    at: Moment,
    idle: Option<u64>,
    today: i64,
    month: i64,
)
    requires
        config.mode@ == "active_time"@,
    ensures
        ({
            let v = t.after(id, u, config, at, idle, today, month).sessions[id];
            let known = t.sessions.dom().contains(id);
            let old = t.sessions[id];
            &&& v.last_activity == Some(at.now@)
            &&& !known ==> v.active_time_seconds == Some(0i64)
            &&& known && old.last_activity is Some && old.active_time_seconds is Some
                && idle is Some ==> ({
                let before = old.active_time_seconds->Some_0;
                let seconds = idle->Some_0;
                &&& seconds < config.inactivity_threshold_minutes * 60 && before + seconds
                    <= i64::MAX ==> v.active_time_seconds == Some((before + seconds) as i64)
                &&& seconds >= config.inactivity_threshold_minutes * 60
                    ==> v.active_time_seconds == Some(before)
            })
        }),
{
    lemma_modes_differ();
}

/// In every other mode the active time is the one that is reported, and the one that is
/// known where none is; only by the wall clock is the reported activity believed.
pub proof fn reported_time_is_taken_over(
    t: TablesFacts,
    id: Seq<char>,
    u: SessionUpdate,
    config: BurnRateConfig,
    at: Moment,
    idle: Option<u64>,
    today: i64,
    month: i64,
)
    requires
        config.mode@ != "active_time"@,
    ensures
        ({
            let v = t.after(id, u, config, at, idle, today, month).sessions[id];
            &&& u.active_time_seconds matches Some(n) ==> (n <= i64::MAX ==> v.active_time_seconds
                == Some(n as i64))
            &&& u.active_time_seconds is None && goes_on(t, id, config, idle)
                ==> v.active_time_seconds == t.sessions[id].active_time_seconds
            &&& config.mode@ != "auto_reset"@ && u.last_activity is Some ==> v.last_activity
                == opt_view(u.last_activity)
            &&& config.mode@ == "auto_reset"@ || u.last_activity is None ==> v.last_activity
                == Some(at.now@)
        }),
{
    lemma_modes_differ();
}

/// A session's idle time is the time since its last activity, and none before that.
pub proof fn idle_since_the_last_activity(t: TablesFacts, id: Seq<char>, then: u64, now: u64)
    requires
        t.sessions.dom().contains(id),
        t.sessions[id].last_activity matches Some(a) && crate::clock::unix_time(a) == Some(then),
    ensures
        t.idle(id, Some(now)) matches Some(n) && n == surplus(now as int, then as int),
        t.idle(id, None) is None,
{
}

/// Nothing is known of the idle time of a session that is not known, or never was active.
pub proof fn no_activity_no_idle_time(t: TablesFacts, id: Seq<char>, now: Option<u64>)
    requires
        t.sessions.dom().contains(id) ==> t.sessions[id].last_activity is None,
    ensures
        t.idle(id, now) is None,
{
}

/// Attribution is kept by who did the work: agents' files, requests, input and output under
/// agents, the main conversation's under main; the rest of the session stays.
pub proof fn work_is_kept_by_who_did_it(
    t: TablesFacts,
    id: Seq<char>,
    version: Option<Seq<char>>,
    s: AgentsSummary,
)
    requires
        t.sessions.dom().contains(id),
        s.agents.requests <= i64::MAX,
        s.main.requests <= i64::MAX,
        s.agents.output_tokens <= i64::MAX,
        s.main.output_tokens <= i64::MAX,
        s.agents.input_tokens + s.agents.cache_read_tokens + s.agents.cache_creation_tokens
            <= i64::MAX,
        s.main.input_tokens + s.main.cache_read_tokens + s.main.cache_creation_tokens <= i64::MAX,
    ensures
        ({
            let v = t.with_agents(id, version, s);
            let old = t.sessions[id];
            let new = v.sessions[id];
            let a = new.attribution;
            &&& a.agent_count == s.agent_files
            &&& a.agent_requests == s.agents.requests
            &&& a.agent_input_tokens == s.agents.input_tokens + s.agents.cache_read_tokens
                + s.agents.cache_creation_tokens
            &&& a.agent_output_tokens == s.agents.output_tokens
            &&& a.main_requests == s.main.requests
            &&& a.main_input_tokens == s.main.input_tokens + s.main.cache_read_tokens
                + s.main.cache_creation_tokens
            &&& a.main_output_tokens == s.main.output_tokens
            &&& version is Some ==> new.version == version
            &&& version is None ==> new.version == old.version
            &&& new == SessionFacts { version: new.version, attribution: a, ..old }
            &&& v.archive == t.archive
            &&& v.daily == t.daily
            &&& v.monthly == t.monthly
            &&& v.sessions.remove(id) == t.sessions.remove(id)
        }),
{
}

/// Work of a session that is not known is kept nowhere, nor is the context it was seen with.
pub proof fn unknown_sessions_keep_nothing(
    t: TablesFacts,
    id: Seq<char>,
    version: Option<Seq<char>>,
    s: AgentsSummary,
    most: Option<i64>,
)
    requires
        !t.sessions.dom().contains(id),
    ensures
        t.with_agents(id, version, s) == t,
        t.with_max_tokens(id, most) == t,
{
}

/// The largest context that was seen of a session never falls, and is the new one where
/// that is larger; nothing else of the session changes with it.
pub proof fn the_largest_context_is_kept(t: TablesFacts, id: Seq<char>, tokens: u32)
    requires
        t.sessions.dom().contains(id),
    ensures
        ({
            let old = t.sessions[id];
            let most = most_seen(Some(old), tokens);
            let v = t.with_max_tokens(id, most);
            &&& most is Some
            &&& most->Some_0 >= tokens
            &&& old.max_tokens_observed is None ==> most == Some(tokens as i64)
            &&& old.max_tokens_observed matches Some(m) ==> most->Some_0 >= m && (most->Some_0 == m
                || most->Some_0 == tokens)
            &&& v.sessions[id] == SessionFacts { max_tokens_observed: most, ..old }
            &&& v.sessions.remove(id) == t.sessions.remove(id)
            &&& v.archive == t.archive
            &&& v.daily == t.daily
            &&& v.monthly == t.monthly
        }),
{
}

/// A session that is taken over from the older statistics keeps its times, cost, lines and
/// activity, each as it was; what those did not hold is unknown or none.
pub proof fn older_statistics_are_kept(s: StatsFacts)
    requires
        s.lines_added <= i64::MAX,
        s.lines_removed <= i64::MAX,
        s.active_time_seconds matches Some(n) ==> n <= i64::MAX,
    ensures
        ({
            let r = imported(s);
            &&& s.start_time matches Some(t) ==> r.start_time == t
            &&& s.start_time is None ==> r.start_time.len() == 0
            &&& r.last_updated == s.last_updated
            &&& r.cost == s.cost
            &&& r.lines_added == s.lines_added
            &&& r.lines_removed == s.lines_removed
            &&& r.last_activity == s.last_activity
            &&& s.active_time_seconds matches Some(n) ==> r.active_time_seconds == Some(n as i64)
            &&& s.active_time_seconds is None ==> r.active_time_seconds is None
            &&& r.tokens.input == 0
            &&& r.tokens.output == 0
            &&& r.tokens.cache_read == 0
            &&& r.tokens.cache_creation == 0
            &&& r.max_tokens_observed == Some(0i64)
            &&& r.model_name is None
            &&& r.workspace_dir is None
            &&& r.device_id is None
            &&& r.version is None
        }),
{
}

/// An update of a session that goes on, and whose counters do not fall, can be recorded
/// exactly where the totals can take in what is new of each count.
pub proof fn what_fits_is_recorded(
    t: TablesFacts,
    id: Seq<char>,
    u: SessionUpdate,
    b: TokenBreakdown,
    config: BurnRateConfig,
    at: Moment,
    idle: Option<u64>,
)
    requires
        goes_on(t, id, config, idle),
        u.token_breakdown == Some(b),
        u.active_time_seconds is None,
        config.mode@ != "active_time"@,
        u.lines_added >= t.sessions[id].lines_added,
        u.lines_removed >= t.sessions[id].lines_removed,
    ensures
        ({
            let old = t.sessions[id];
            let d = so_far(t.daily, at.today@).tokens;
            let m = so_far(t.monthly, at.month@).tokens;
            t.has_room(id, u, config, at, idle) <==> {
                &&& u.lines_added <= i64::MAX
                &&& u.lines_removed <= i64::MAX
                &&& lines_fit(
                    t,
                    at,
                    u.lines_added - old.lines_added,
                    u.lines_removed - old.lines_removed,
                )
                &&& takes(d.input, surplus(b.input_tokens as int, old.tokens.input as int))
                &&& takes(d.output, surplus(b.output_tokens as int, old.tokens.output as int))
                &&& takes(
                    d.cache_read,
                    surplus(b.cache_read_tokens as int, old.tokens.cache_read as int),
                )
                &&& takes(
                    d.cache_creation,
                    surplus(b.cache_creation_tokens as int, old.tokens.cache_creation as int),
                )
                &&& takes(m.input, surplus(b.input_tokens as int, old.tokens.input as int))
                &&& takes(m.output, surplus(b.output_tokens as int, old.tokens.output as int))
                &&& takes(
                    m.cache_read,
                    surplus(b.cache_read_tokens as int, old.tokens.cache_read as int),
                )
                &&& takes(
                    m.cache_creation,
                    surplus(b.cache_creation_tokens as int, old.tokens.cache_creation as int),
                )
            }
        }),
{
    lemma_modes_differ();
}

/// Sessions that are taken over are each taken over as they are, and no others are.
pub proof fn each_session_is_taken_over(
    sessions: Map<Seq<char>, crate::stats::session::SessionStats>,
    id: Seq<char>,
)
    ensures
        ({
            let all = crate::database::tables::imported_all(sessions);
            &&& all.dom().contains(id) <==> sessions.dom().contains(id)
            &&& sessions.dom().contains(id) ==> all[id] == imported(sessions[id]@)
        }),
{
}

/// The tables say what their records say, one by one.
pub proof fn tables_say_what_they_hold(t: crate::database::tables::Tables, id: Seq<char>, i: int)
    ensures
        t@.sessions.dom().contains(id) <==> t.sessions@.dom().contains(id),
        t.sessions@.dom().contains(id) ==> t@.sessions[id] == t.sessions@[id]@,
        t@.archive.len() == t.archive@.len(),
        0 <= i < t.archive@.len() ==> t@.archive[i] == t.archive@[i]@,
        t@.daily == t.daily@,
        t@.monthly == t.monthly@,
{
}

/// An update without a time or an activity of its own has none so far and the present one;
/// all else it says stays.
pub proof fn updates_are_filled_in(u: SessionUpdate, now: &str, r: SessionUpdate)
    requires
        call_ensures(SessionUpdate::with_burn_rate_defaults, (u, now), r),
    ensures
        r.cost == u.cost,
        r.lines_added == u.lines_added,
        r.lines_removed == u.lines_removed,
        r.model_name == u.model_name,
        r.workspace_dir == u.workspace_dir,
        r.device_id == u.device_id,
        r.token_breakdown == u.token_breakdown,
        r.max_tokens_observed == u.max_tokens_observed,
        u.active_time_seconds is None ==> r.active_time_seconds == Some(0u64),
        u.active_time_seconds is Some ==> r.active_time_seconds == u.active_time_seconds,
        r.last_activity matches Some(t) && (u.last_activity is None ==> t@ == now@),
        u.last_activity matches Some(a) ==> (r.last_activity matches Some(t) && t@ == a@),
{
}

} // verus!
