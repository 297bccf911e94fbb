//! What becomes of what a session says.

use crate::database::records::{ArchiveRecord, SessionRecord, SessionUpdate, TokenBreakdown};
use crate::database::tables::{Moment, Tables};
use crate::display::colors::Colors;
use crate::display::line::{Cost, LineFacts, PayloadExtras};
use crate::error::{failed_with, refused_with, Result};
use crate::laws::words::begins_with;
use crate::models::StatuslineInput;
use crate::render::{
    after_cost, after_tokens, are_extras_of, are_facts_of, home_only, plan_stats, says_what,
    takes_in_cost, StatsPlan, Surroundings,
};
use crate::stats::session::{StatsView, StoredFacts};
use crate::text::{opt_str, opt_view};
use vstd::prelude::*;

verus! {

/// An update says what the session says: its cost, its lines added and removed, each of its
/// own field and none where it says none, its directory, the device, and its tokens.
pub proof fn updates_say_what_the_session_says(
    u: SessionUpdate,
    input: StatuslineInput,
    c: Cost,
    device: Seq<char>,
    tokens: Option<TokenBreakdown>,
)
    requires
        says_what(u, input, device, tokens),
        input.cost == Some(c),
    ensures
        c.total_cost_usd == Some(u.cost),
        c.total_lines_added matches Some(n) ==> u.lines_added == n,
        c.total_lines_added is None ==> u.lines_added == 0,
        c.total_lines_removed matches Some(n) ==> u.lines_removed == n,
        c.total_lines_removed is None ==> u.lines_removed == 0,
        u.device_id matches Some(d) && d@ == device,
        u.token_breakdown == tokens,
        u.max_tokens_observed is None,
        u.active_time_seconds is None,
        u.last_activity is None,
        input.workspace is None ==> u.workspace_dir is None,
        input.workspace matches Some(w) ==> opt_view(u.workspace_dir) == opt_view(w.current_dir),
        input.model is None ==> u.model_name is None,
        input.model matches Some(m) ==> (m.display_name is Some ==> opt_view(u.model_name)
            == opt_view(m.display_name)) && (m.display_name is None ==> opt_view(u.model_name)
            == opt_view(m.id)),
{
}

/// A cost is recorded exactly where recording is asked for and the session names itself and
/// its cost; tokens are noted, and agents' work stored, only where recording is asked for.
pub proof fn nothing_is_recorded_unasked(
    input: &StatuslineInput,
    update_stats: bool,
    device: &str,
    tokens: Option<TokenBreakdown>,
    learning: bool,
    store: bool,
    r: StatsPlan,
)
    requires
        call_ensures(plan_stats, (input, update_stats, device, tokens, learning, store), r),
    ensures
        r.update is Some <==> update_stats && input.session_id is Some && (input.cost matches Some(c)
            && c.total_cost_usd is Some),
        r.tracks_tokens <==> update_stats && input.session_id is Some && input.transcript is Some,
        r.learns <==> r.tracks_tokens && learning && (input.model matches Some(m) && (
        m.display_name is Some || m.id is Some)),
        r.scans_agents <==> store && input.session_id is Some && input.transcript is Some,
        r.stores_agents <==> r.scans_agents && update_stats,
{
}

/// The line speaks of the session's surroundings and of what the session says, each fact
/// from its own source.
pub proof fn facts_come_from_their_sources(f: LineFacts, input: StatuslineInput, s: Surroundings)
    requires
        are_facts_of(f, input, s),
    ensures
        f.test_mode == s.test_mode,
        f.transcript_context == s.transcript_context,
        f.transcript_duration == s.transcript_duration,
        f.session_duration == s.session_duration,
        f.daily_total == s.daily_total,
        f.now == s.now,
        f.cost is Some <==> input.cost is Some,
        f.cost matches Some(c) ==> input.cost == Some(*c),
        f.git is Some <==> s.git is Some,
        f.git matches Some(g) ==> s.git == Some(*g),
        f.model is Some <==> s.model is Some,
        f.model matches Some(m) ==> s.model == Some(*m),
        f.token_rates is Some <==> s.token_rates is Some,
        f.token_rates matches Some(x) ==> s.token_rates == Some(*x),
        input.workspace is None ==> f.current_dir@ == "~"@,
        input.workspace matches Some(w) ==> (w.current_dir matches Some(d) ==> f.current_dir@ == d@)
            && (w.current_dir is None ==> f.current_dir@ == "~"@),
{
}

/// What the payload says besides comes from its own fields, and the agents' part from the
/// surroundings.
pub proof fn extras_come_from_their_sources(e: PayloadExtras, input: StatuslineInput, s: Surroundings)
    requires
        are_extras_of(e, input, s),
    ensures
        e.context_window is Some <==> input.context_window is Some,
        e.context_window matches Some(x) ==> input.context_window == Some(*x),
        e.rate_limits is Some <==> input.rate_limits is Some,
        e.rate_limits matches Some(x) ==> input.rate_limits == Some(*x),
        e.prompt_cache is Some <==> input.prompt_cache is Some,
        e.prompt_cache matches Some(x) ==> input.prompt_cache == Some(*x),
        e.agents is Some <==> s.agents is Some,
        e.agents matches Some(x) ==> s.agents == Some(*x),
        e.exceeds_200k == input.exceeds_200k_tokens,
        opt_str(e.version) == opt_view(input.version),
        input.effort is None ==> e.effort is None,
        input.effort matches Some(x) ==> opt_str(e.effort) == opt_view(x.level),
        input.workspace is None ==> e.repo is None,
        input.workspace matches Some(w) ==> (e.repo is Some <==> w.repo is Some) && (e.repo
            matches Some(x) ==> w.repo == Some(*x)),
{
}

/// A directory under the home one is shortened to a tilde and what follows; any other is
/// shown whole.
pub proof fn directories_under_home_are_shortened(home: Seq<char>, rest: Seq<char>, other: Seq<char>)
    requires
        home.len() > 0,
        !begins_with(other, home),
    ensures
        crate::utils::shortened(home + rest, Some(home)) == "~"@ + rest,
        crate::utils::shortened(other, Some(home)) == other,
        crate::utils::shortened(other, None) == other,
        crate::utils::shortened(other, Some(Seq::empty())) == other,
{
    assert((home + rest).take(home.len() as int) =~= home);
    assert((home + rest).skip(home.len() as int) =~= rest);
}

/// Where there is no directory but the home one, a tilde stands for the line, and it has
/// the directory's colour; any other directory is not stood for.
pub proof fn a_tilde_stands_for_home(dir: &str, colors: &Colors, r: Option<String>)
    requires
        call_ensures(home_only, (dir, colors), r),
    ensures
        r is Some <==> dir@.len() == 0 || dir@ == "~"@,
        r matches Some(t) ==> t@ == colors.code(colors.theme.directory@) + "~"@
            + colors.reset_code(),
{
}

/// The tokens of a session are given by kind: input, output, read from the cache, written to
/// it, in this order; nothing where one of them is below zero or the session is not known.
pub proof fn tokens_are_given_by_kind(t: &Tables, id: &str, r: Option<(u32, u32, u32, u32)>)
    requires
        call_ensures(Tables::get_session_token_breakdown, (t, id), r),
    ensures
        ({
            let known = t@.sessions.dom().contains(id@);
            let k = t@.sessions[id@].tokens;
            &&& !known ==> r is None
            &&& known && (k.input < 0 || k.output < 0 || k.cache_read < 0 || k.cache_creation < 0)
                ==> r is None
            &&& known && 0 <= k.input <= u32::MAX && 0 <= k.output <= u32::MAX && 0
                <= k.cache_read <= u32::MAX && 0 <= k.cache_creation <= u32::MAX ==> (r matches Some(
                x,
            ) && x.0 == k.input && x.1 == k.output && x.2 == k.cache_read && x.3
                == k.cache_creation)
        }),
{
}

/// What is asked of a session's times is answered from the session: its start, its active
/// time and its last activity.
pub proof fn times_are_the_sessions_own(
    t: &Tables,
    id: &str,
    start: Option<String>,
    active: Option<(Option<u64>, Option<String>)>,
    most: Option<usize>,
)
    requires
        call_ensures(Tables::get_session_start_time, (t, id), start),
        call_ensures(Tables::get_session_active_time, (t, id), active),
        call_ensures(Tables::get_session_max_tokens, (t, id), most),
    ensures
        ({
            let known = t@.sessions.dom().contains(id@);
            let s = t@.sessions[id@];
            &&& !known ==> start is None && active is None && most is None
            &&& known ==> opt_view(start) == Some(s.start_time) && active is Some && opt_view(
                active->Some_0.1,
            ) == s.last_activity
            &&& known && (s.active_time_seconds matches Some(n) && n >= 0) ==> active->Some_0.0
                == Some(s.active_time_seconds->Some_0 as u64)
            &&& known && s.active_time_seconds is None ==> active->Some_0.0 is None
            &&& known && s.max_tokens_observed is None ==> most is None
            &&& known && (s.max_tokens_observed matches Some(n) && 0 <= n <= u32::MAX) ==> most
                == Some(s.max_tokens_observed->Some_0 as usize)
        }),
{
}

/// What the kept records say is what they hold, field by field.
pub proof fn records_say_what_they_hold(r: SessionRecord, a: ArchiveRecord)
    ensures
        r@.start_time == r.start_time@,
        r@.last_updated == r.last_updated@,
        r@.cost == r.cost,
        r@.lines_added == r.lines_added,
        r@.lines_removed == r.lines_removed,
        r@.model_name == opt_view(r.model_name),
        r@.workspace_dir == opt_view(r.workspace_dir),
        r@.device_id == opt_view(r.device_id),
        r@.tokens == r.tokens,
        r@.max_tokens_observed == r.max_tokens_observed,
        r@.active_time_seconds == r.active_time_seconds,
        r@.last_activity == opt_view(r.last_activity),
        r@.version == opt_view(r.version),
        r@.attribution == r.attribution,
        a@.session_id == a.session_id@,
        a@.start_time == a.start_time@,
        a@.end_time == a.end_time@,
        a@.archived_at == a.archived_at@,
        a@.cost == a.cost,
        a@.lines_added == a.lines_added,
        a@.lines_removed == a.lines_removed,
        a@.active_time_seconds == a.active_time_seconds,
        a@.last_activity == opt_view(a.last_activity),
        a@.model_name == opt_view(a.model_name),
        a@.workspace_dir == opt_view(a.workspace_dir),
        a@.device_id == opt_view(a.device_id),
{
}

/// Taking in what a session says changes the statistics only where that is asked for and
/// the session names itself and its cost; then the session is what it says, or nothing
/// changes where the totals could not hold it.
pub proof fn what_is_taken_in(
    before: StatsView,
    after: StatsView,
    input: StatuslineInput,
    c: Cost,
    asked: bool,
    device: Seq<char>,
    tokens: Option<TokenBreakdown>,
    at: Moment,
    store: StoredFacts,
)
    requires
        takes_in_cost(before, after, input, asked, device, tokens, at, store),
        input.cost == Some(c),
    ensures
        !asked || input.session_id is None || c.total_cost_usd is None ==> after == before,
        after != before ==> ({
            let s = after.sessions[input.session_id->Some_0@];
            &&& after.sessions.dom().contains(input.session_id->Some_0@)
            &&& Some(s.cost) == c.total_cost_usd
            &&& c.total_lines_added matches Some(n) ==> s.lines_added == n
            &&& c.total_lines_removed matches Some(n) ==> s.lines_removed == n
            &&& s.last_updated == at.now@
        }),
{
    if asked && input.session_id is Some && c.total_cost_usd is Some {
        let u = choose|u: SessionUpdate| #[trigger]
            says_what(u, input, device, tokens) && after == after_cost(
                before,
                input.session_id->Some_0@,
                u,
                at,
                store,
            );
        assert(says_what(u, input, device, tokens));
    }
}

/// Noting the tokens of a transcript changes the session that has used them, and nothing
/// where there are none to note.
pub proof fn tokens_are_noted(before: StatsView, id: Seq<char>, n: u32)
    ensures
        after_tokens(before, id, None) == before,
        after_tokens(before, id, Some(n)).daily == before.daily,
        after_tokens(before, id, Some(n)).monthly == before.monthly,
        after_tokens(before, id, Some(n)).all_time == before.all_time,
        before.sessions.dom().contains(id) ==> (after_tokens(before, id, Some(
            n,
        )).sessions[id].max_tokens_observed matches Some(m) && m >= n),
        !before.sessions.dom().contains(id) ==> after_tokens(before, id, Some(n)).sessions
            == before.sessions,
{
}

/// A failure is of the kind and with the words that it is said to have.
pub proof fn failures_are_of_their_kind<T>(r: Result<T>, words: Seq<char>)
    ensures
        failed_with(r, words) ==> (r matches Err(e) && e is Other && e.text() == words),
        refused_with(r, words) ==> (r matches Err(e) && e is Config && e.text() == words),
        r is Ok ==> !failed_with(r, words) && !refused_with(r, words),
{
}

} // verus!
