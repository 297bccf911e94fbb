//! What operations leave behind where they have been carried out.

use crate::agents::{
    consume_line, json_string_under, note_agent_type, read_agent_type, AgentsSummary, Progress,
    TranscriptEntry, TranscriptTotals, Usage,
};
use crate::ant::cache::TokenBreakdown;
use crate::ant::fetch::{ApiModel, ModelsFetch, ModelsPage};
use crate::ant::usage::{
    accumulate_tokens, lines_in, with_line, with_lines, ReportEnvelope, UsageItem,
};
use crate::config::BurnRateConfig;
use crate::database::records::SessionUpdate;
use crate::database::tables::{imported, Moment, Tables};
use crate::double::Double;
use crate::laws::agents::{given, is_new_response};
use crate::models::StatuslineInput;
use crate::render::update_stats_and_daily_total;
use crate::stats::session::{SessionStats, StatsData, StoredFacts};
use crate::text::opt_view;
use crate::text_map::TextMap;
use vstd::prelude::*;

verus! {

// ---------------------------------------------------------------------------
// Transcripts
// ---------------------------------------------------------------------------

/// Reading a line of a response that was not seen before counts it once, and each kind of
/// token by exactly what the line says of that kind.
pub proof fn lines_are_counted_by_kind(
    entry: &Option<TranscriptEntry>,
    state: &mut Progress,
    e: TranscriptEntry,
    u: Usage,
)
    requires
        call_ensures(consume_line, (entry, state), ()),
        *entry == Some(e),
        is_new_response(*old(state), e),
        e.usage == Some(u),
        old(state).totals.requests < u64::MAX,
        old(state).totals.input_tokens + given(u.input_tokens) <= u64::MAX,
        old(state).totals.output_tokens + given(u.output_tokens) <= u64::MAX,
        old(state).totals.cache_read_tokens + given(u.cache_read_input_tokens) <= u64::MAX,
        old(state).totals.cache_creation_tokens + given(u.cache_creation_input_tokens) <= u64::MAX,
    ensures
        final(state).totals.requests - old(state).totals.requests == 1,
        final(state).totals.input_tokens - old(state).totals.input_tokens == given(u.input_tokens),
        final(state).totals.output_tokens - old(state).totals.output_tokens == given(
            u.output_tokens,
        ),
        final(state).totals.cache_read_tokens - old(state).totals.cache_read_tokens == given(
            u.cache_read_input_tokens,
        ),
        final(state).totals.cache_creation_tokens - old(state).totals.cache_creation_tokens
            == given(u.cache_creation_input_tokens),
        final(state).offset == old(state).offset,
        final(state).agent_type == old(state).agent_type,
{
}

/// A line that could not be read leaves all as it is.
pub proof fn unread_lines_leave_all(entry: &Option<TranscriptEntry>, state: &mut Progress)
    requires
        call_ensures(consume_line, (entry, state), ()),
        *entry is None,
    ensures
        *final(state) == *old(state),
{
}

/// An agent that is recorded counts once, with its own tokens added kind by kind and its own
/// type counted, or as unknown; the main conversation and other types stay as they are.
pub proof fn agents_are_recorded_one_by_one(
    s: &mut AgentsSummary,
    totals: &TranscriptTotals,
    kind: Option<String>,
    name: Seq<char>,
    other: Seq<char>,
)
    requires
        call_ensures(AgentsSummary::record_agent, (s, totals, kind), ()),
        kind matches Some(k) ==> k@ == name,
        kind is None ==> name == "unknown"@,
        other != name,
        old(s).agents.requests + totals.requests <= u64::MAX,
        old(s).agents.input_tokens + totals.input_tokens <= u64::MAX,
        old(s).agents.output_tokens + totals.output_tokens <= u64::MAX,
        old(s).agents.cache_read_tokens + totals.cache_read_tokens <= u64::MAX,
        old(s).agents.cache_creation_tokens + totals.cache_creation_tokens <= u64::MAX,
        old(s).agent_types@.dom().contains(name) ==> old(s).agent_types@[name] < u32::MAX,
    ensures
        final(s).main == old(s).main,
        final(s).agent_files == old(s).agent_files + 1,
        final(s).agents.requests == old(s).agents.requests + totals.requests,
        final(s).agents.input_tokens == old(s).agents.input_tokens + totals.input_tokens,
        final(s).agents.output_tokens == old(s).agents.output_tokens + totals.output_tokens,
        final(s).agents.cache_read_tokens == old(s).agents.cache_read_tokens
            + totals.cache_read_tokens,
        final(s).agents.cache_creation_tokens == old(s).agents.cache_creation_tokens
            + totals.cache_creation_tokens,
        final(s).agent_types@.dom().contains(name),
        old(s).agent_types@.dom().contains(name) ==> final(s).agent_types@[name]
            == old(s).agent_types@[name] + 1,
        !old(s).agent_types@.dom().contains(name) ==> final(s).agent_types@[name] == 1,
        final(s).agent_types@.dom().contains(other) == old(s).agent_types@.dom().contains(other),
        old(s).agent_types@.dom().contains(other) ==> final(s).agent_types@[other]
            == old(s).agent_types@[other],
{
}

/// The type that is noted of an agent is the one that was found, and only where none is
/// known; nothing else changes, and nothing of what is no agent's.
pub proof fn types_are_noted_once(state: &mut Progress, is_agent: bool, found: Option<String>)
    requires
        call_ensures(note_agent_type, (state, is_agent, found), ()),
    ensures
        is_agent && old(state).agent_type is None ==> final(state).agent_type == found,
        old(state).agent_type is Some ==> *final(state) == *old(state),
        !is_agent ==> *final(state) == *old(state),
        final(state).totals == old(state).totals,
        final(state).offset == old(state).offset,
        final(state).size == old(state).size,
        final(state).mtime == old(state).mtime,
        final(state).last_request_id == old(state).last_request_id,
{
}

/// The type of an agent stands in its file's metadata under its own word.
pub proof fn types_are_read_from_metadata(state: &mut Progress, meta: Option<&str>)
    requires
        call_ensures(read_agent_type, (state, true, meta), ()),
        old(state).agent_type is None,
    ensures
        meta matches Some(t) ==> opt_view(final(state).agent_type) == json_string_under(
            t@,
            "agentType"@,
        ),
        meta is None ==> final(state).agent_type is None,
        final(state).totals == old(state).totals,
{
}

// ---------------------------------------------------------------------------
// What is fetched
// ---------------------------------------------------------------------------

/// A page that is accepted adds its models and counts once; the next one begins behind its
/// last, where there is more.
pub proof fn pages_are_accepted_in_turn(
    f: &mut ModelsFetch,
    page: &ModelsPage,
    r: bool,
    before: Seq<ApiModel>,
    x: ApiModel,
)
    requires
        call_ensures(ModelsFetch::accept, (f, page), r),
        page.data@ == before.push(x),
    ensures
        final(f).pages == old(f).pages + 1,
        r ==> page.has_more && page.last_id is Some && final(f).after_id == page.last_id,
        !page.has_more ==> !r && final(f).after_id == old(f).after_id,
        page.last_id is None ==> !r && final(f).after_id == old(f).after_id,
        page.has_more && page.last_id is Some && old(f).pages + 1 < 1000 ==> r,
        old(f).pages + 1 >= 1000 ==> !r,
        final(f).models@.dom().contains(x.id@),
{
    assert(page.data@.drop_last() =~= before);
}

/// A report's lines are counted one after another, each for its own model.
pub proof fn reports_are_counted_line_by_line(
    env: &ReportEnvelope<UsageItem>,
    acc: &mut TextMap<TokenBreakdown>,
    before: Seq<UsageItem>,
    item: UsageItem,
)
    requires
        call_ensures(accumulate_tokens, (env, acc), ()),
    ensures
        lines_in(env.data@).len() == 0 ==> final(acc)@ == old(acc)@,
        lines_in(env.data@) == before.push(item) ==> final(acc)@ == with_line(
            with_lines(old(acc)@, before),
            item,
        ),
{
    assert(before.push(item).drop_last() =~= before);
}

// ---------------------------------------------------------------------------
// The database
// ---------------------------------------------------------------------------

/// What recording a session gives back is the day's total as it stands then, and the
/// session's own cost; an update that does not fit changes nothing.
pub proof fn the_days_total_and_the_cost_are_given_back(
    t: &mut Tables,
    id: &str,
    u: SessionUpdate,
    config: &BurnRateConfig,
    at: &Moment,
    now: Option<u64>,
    today: i64,
    month: i64,
    r: Option<(Double, Double)>,
)
    requires
        call_ensures(Tables::update_session, (t, id, u, config, at, now, today, month), r),
    ensures
        r matches Some(x) ==> x.0 == final(t)@.daily[at.today@].total_cost && x.1 == u.cost,
        r is None ==> final(t)@ == old(t)@,
        r is Some ==> final(t)@.sessions.dom().contains(id@) && final(t)@.sessions[id@].cost
            == u.cost,
        r is Some ==> final(t)@.sessions.remove(id@) == old(t)@.sessions.remove(id@),
        r is Some ==> final(t)@.daily.remove(at.today@) == old(t)@.daily.remove(at.today@),
        r is Some ==> final(t)@.monthly.remove(at.month@) == old(t)@.monthly.remove(at.month@),
{
}

/// Resetting the largest context of one session leaves all else, and all other sessions, as
/// they are.
pub proof fn one_context_is_reset(t: &mut Tables, id: &str, other: Seq<char>)
    requires
        call_ensures(Tables::reset_session_max_tokens, (t, id), ()),
        old(t)@.sessions.dom().contains(id@),
        other != id@,
    ensures
        final(t)@.sessions[id@].max_tokens_observed == Some(0i64),
        final(t)@.sessions[id@].cost == old(t)@.sessions[id@].cost,
        final(t)@.sessions[id@].tokens == old(t)@.sessions[id@].tokens,
        final(t)@.sessions.dom() == old(t)@.sessions.dom(),
        old(t)@.sessions.dom().contains(other) ==> final(t)@.sessions[other]
            == old(t)@.sessions[other],
        final(t)@.daily == old(t)@.daily,
        final(t)@.monthly == old(t)@.monthly,
        final(t)@.archive == old(t)@.archive,
{
}

/// Resetting the largest contexts of all sessions resets each and leaves the rest of it, and
/// says how many there are.
pub proof fn all_contexts_are_reset(t: &mut Tables, r: usize, id: Seq<char>)
    requires
        call_ensures(Tables::reset_all_sessions_max_tokens, (t,), r),
        old(t)@.sessions.dom().contains(id),
    ensures
        r == old(t)@.sessions.dom().len(),
        final(t)@.sessions.dom() == old(t)@.sessions.dom(),
        final(t)@.sessions[id].max_tokens_observed == Some(0i64),
        final(t)@.sessions[id].cost == old(t)@.sessions[id].cost,
        final(t)@.sessions[id].lines_added == old(t)@.sessions[id].lines_added,
        final(t)@.sessions[id].lines_removed == old(t)@.sessions[id].lines_removed,
        final(t)@.sessions[id].tokens == old(t)@.sessions[id].tokens,
        final(t)@.sessions[id].last_updated == old(t)@.sessions[id].last_updated,
        final(t)@.daily == old(t)@.daily,
        final(t)@.monthly == old(t)@.monthly,
        final(t)@.archive == old(t)@.archive,
{
}

/// Older statistics are taken over for the sessions that are not in the tables; those that
/// are stay as they are.
pub proof fn known_sessions_are_not_taken_over(
    t: &mut Tables,
    sessions: &TextMap<SessionStats>,
    id: Seq<char>,
)
    requires
        call_ensures(Tables::import_sessions, (t, sessions), ()),
    ensures
        old(t)@.sessions.dom().contains(id) ==> final(t)@.sessions.dom().contains(id)
            && final(t)@.sessions[id] == old(t)@.sessions[id],
        !old(t)@.sessions.dom().contains(id) && sessions@.dom().contains(id)
            ==> final(t)@.sessions.dom().contains(id) && final(t)@.sessions[id] == imported(
            sessions@[id]@,
        ),
        !old(t)@.sessions.dom().contains(id) && !sessions@.dom().contains(id)
            ==> !final(t)@.sessions.dom().contains(id),
        final(t)@.daily == old(t)@.daily,
        final(t)@.monthly == old(t)@.monthly,
        final(t)@.archive == old(t)@.archive,
{
}

/// The work that is noted of a session goes to that session alone, by who did it.
pub proof fn work_goes_to_its_session(
    t: &mut Tables,
    id: &str,
    version: Option<&str>,
    s: &AgentsSummary,
    other: Seq<char>,
)
    requires
        call_ensures(Tables::update_session_agents, (t, id, version, s), ()),
        old(t)@.sessions.dom().contains(id@),
        s.agents.requests <= i64::MAX,
        s.main.requests <= i64::MAX,
        other != id@,
    ensures
        final(t)@.sessions[id@].attribution.agent_count == s.agent_files,
        final(t)@.sessions[id@].attribution.agent_requests == s.agents.requests,
        final(t)@.sessions[id@].attribution.main_requests == s.main.requests,
        version matches Some(v) ==> final(t)@.sessions[id@].version == Some(v@),
        version is None ==> final(t)@.sessions[id@].version == old(t)@.sessions[id@].version,
        old(t)@.sessions.dom().contains(other) ==> final(t)@.sessions[other]
            == old(t)@.sessions[other],
{
}

/// A larger context is noted of its session, a smaller one is not.
pub proof fn only_larger_contexts_are_noted(t: &mut Tables, id: &str, tokens: u32, m: i64)
    requires
        call_ensures(Tables::update_max_tokens_observed, (t, id, tokens), ()),
        old(t)@.sessions.dom().contains(id@),
        old(t)@.sessions[id@].max_tokens_observed == Some(m),
    ensures
        tokens > m ==> final(t)@.sessions[id@].max_tokens_observed == Some(tokens as i64),
        tokens <= m ==> final(t)@.sessions[id@].max_tokens_observed == Some(m),
{
}

// ---------------------------------------------------------------------------
// The statistics
// ---------------------------------------------------------------------------

/// What an update of the statistics gives back is the day's total and then the month's, as
/// they stand then; one that does not fit changes nothing.
pub proof fn the_days_and_the_months_total_are_given_back(
    s: &mut StatsData,
    id: &str,
    u: &SessionUpdate,
    at: &Moment,
    store: StoredFacts,
    r: Option<(Double, Double)>,
)
    requires
        call_ensures(StatsData::update_session, (s, id, u, at, store), r),
    ensures
        r matches Some(x) ==> x.0 == final(s)@.daily[at.today@].total_cost && x.1
            == final(s)@.monthly[at.month@].total_cost,
        r is None ==> final(s)@ == old(s)@,
        r is Some ==> final(s)@.sessions.dom().contains(id@) && final(s)@.sessions[id@].cost
            == u.cost,
        r is Some ==> final(s)@.sessions.remove(id@) == old(s)@.sessions.remove(id@),
{
}

/// A larger context is noted of its session in the statistics too, and nothing else.
pub proof fn larger_contexts_are_noted(s: &mut StatsData, id: &str, tokens: u32, m: u32)
    requires
        call_ensures(StatsData::update_max_tokens, (s, id, tokens), ()),
        old(s)@.sessions.dom().contains(id@),
        old(s)@.sessions[id@].max_tokens_observed == Some(m),
    ensures
        tokens > m ==> final(s)@.sessions[id@].max_tokens_observed == Some(tokens),
        tokens <= m ==> final(s)@.sessions[id@].max_tokens_observed == Some(m),
        final(s)@.daily == old(s)@.daily,
        final(s)@.monthly == old(s)@.monthly,
        final(s)@.all_time == old(s)@.all_time,
{
}

/// Where statistics are not asked for they stay as they are, and the day's total is the one
/// that they hold.
pub proof fn nothing_changes_unasked(
    s: &mut StatsData,
    input: &StatuslineInput,
    device: &str,
    tokens: Option<crate::database::records::TokenBreakdown>,
    current: Option<u32>,
    at: &Moment,
    store: StoredFacts,
    r: Double,
)
    requires
        call_ensures(
            update_stats_and_daily_total,
            (s, input, false, device, tokens, current, at, store),
            r,
        ),
    ensures
        final(s)@ == old(s)@,
        old(s)@.daily.dom().contains(at.today@) ==> r == old(s)@.daily[at.today@].total_cost,
        !old(s)@.daily.dom().contains(at.today@) ==> r == Double::zero(),
{
}

// ---------------------------------------------------------------------------
// Texts and what is kept under them
// ---------------------------------------------------------------------------

/// What is put under a text is found under it, and what is under others stays; a text that
/// is new comes last in their order.
pub proof fn what_is_put_is_found(m: &mut TextMap<u32>, key: String, value: u32, other: Seq<char>)
    requires
        call_ensures(TextMap::<u32>::insert, (m, key, value), ()),
        other != key@,
    ensures
        final(m)@.dom().contains(key@) && final(m)@[key@] == value,
        final(m)@.dom().contains(other) == old(m)@.dom().contains(other),
        old(m)@.dom().contains(other) ==> final(m)@[other] == old(m)@[other],
        !old(m)@.dom().contains(key@) ==> final(m).names() == old(m).names().push(key@),
        old(m)@.dom().contains(key@) ==> final(m).names() == old(m).names(),
{
}

} // verus!
