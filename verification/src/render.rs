//! From what a session says to the line: what is recorded of it on the way, and what is
//! shown.

use crate::agents::AgentsSummary;
use crate::config::LineConfig;
use crate::database::records::{copied, SessionUpdate, TokenBreakdown};
use crate::database::tables::Moment;
use crate::display::colors::Colors;
use crate::display::enrichment::Enrichment;
use crate::display::line::{
    GitFacts, LineFacts, ModelFacts, PayloadExtras, Repo, TranscriptContext,
};
use crate::display::output::{format_output_to_string, output_text};
use crate::double::Double;
use crate::layout::rates::TokenRateMetrics;
use crate::models::StatuslineInput;
use crate::paths::{file_name, file_name_of};
use crate::stats::session::{with_tokens_seen, StatsData, StatsView, StoredFacts};
use crate::text::{concat3, opt_str, opt_view, same};
use crate::utils::{cleaned, sanitize_for_terminal, shorten_path, shortened};
use vstd::prelude::*;

verus! {

// ---------------------------------------------------------------------------
// What is recorded
// ---------------------------------------------------------------------------

/// Where a session works, if it says so.
pub open spec fn working_dir(input: StatuslineInput) -> Option<Seq<char>> {
    match input.workspace {
        Some(w) => opt_view(w.current_dir),
        None => None,
    }
}

fn working_dir_of(input: &StatuslineInput) -> (r: Option<&str>)
    ensures
        opt_str(r) == working_dir(*input),
{
    match &input.workspace {
        Some(w) => match &w.current_dir {
            Some(d) => Some(d.as_str()),
            None => None,
        },
        None => None,
    }
}

/// The model that a session uses, if it says so.
pub open spec fn model_known_as(input: StatuslineInput) -> Option<Seq<char>> {
    match input.model {
        Some(m) => m.known_name(),
        None => None,
    }
}

fn model_name_of(input: &StatuslineInput) -> (r: Option<&str>)
    ensures
        opt_str(r) == model_known_as(*input),
{
    match &input.model {
        Some(m) => m.detection_name(),
        None => None,
    }
}

/// What a session says it has cost.
pub open spec fn reported_cost(input: StatuslineInput) -> Option<Double> {
    match input.cost {
        Some(c) => c.total_cost_usd,
        None => None,
    }
}

/// What is done with what a session says.
#[derive(Debug)]
pub struct StatsPlan {
    /// The update to record for the session, if one is.
    pub update: Option<SessionUpdate>,
    /// Whether the tokens of the transcript are noted for the session.
    pub tracks_tokens: bool,
    /// Whether the tokens are learned from, once they are noted.
    pub learns: bool,
    /// Whether the transcripts are read for the agents' part.
    pub scans_agents: bool,
    /// Whether the agents' part is stored.
    pub stores_agents: bool,
}

/// Whether a session's cost is recorded.
pub open spec fn records(input: StatuslineInput, update_stats: bool) -> bool {
    update_stats && input.session_id is Some && reported_cost(input) is Some
}

/// Whether an update says what a session says.
pub open spec fn says_what(
    u: SessionUpdate,
    input: StatuslineInput,
    device_id: Seq<char>,
    tokens: Option<TokenBreakdown>,
) -> bool {
    &&& Some(u.cost) == reported_cost(input)
    &&& u.lines_added == match input.cost->Some_0.total_lines_added {
        Some(n) => n,
        None => 0,
    }
    &&& u.lines_removed == match input.cost->Some_0.total_lines_removed {
        Some(n) => n,
        None => 0,
    }
    &&& opt_view(u.model_name) == model_known_as(input)
    &&& opt_view(u.workspace_dir) == working_dir(input)
    &&& opt_view(u.device_id) == Some(device_id)
    &&& u.token_breakdown == tokens
    &&& u.max_tokens_observed is None
    &&& u.active_time_seconds is None
    &&& u.last_activity is None
}

fn owned(s: Option<&str>) -> (r: Option<String>)
    ensures
        opt_view(r) == opt_str(s),
{
    match s {
        Some(t) => Some(t.to_owned()),
        None => None,
    }
}

/// What is done with what a session says. The cost is recorded where there is one; tokens
/// are noted, and agents looked for, where there is a transcript, whatever the cost.
/// Nothing is stored unless `update_stats` says so.
pub fn plan_stats(
    input: &StatuslineInput,
    update_stats: bool,
    device_id: &str,
    tokens: Option<TokenBreakdown>,
    adaptive_learning: bool,
    store_exists: bool,
) -> (r: StatsPlan)
    ensures
        r.update is Some <==> records(*input, update_stats),
        r.update matches Some(u) ==> says_what(u, *input, device_id@, tokens),
        r.tracks_tokens == (update_stats && input.session_id is Some && input.transcript is Some),
        r.learns == (r.tracks_tokens && model_known_as(*input) is Some && adaptive_learning),
        r.scans_agents == (store_exists && input.session_id is Some && input.transcript is Some),
        r.stores_agents == (update_stats && r.scans_agents),
        !update_stats ==> r.update is None && !r.tracks_tokens && !r.learns && !r.stores_agents,
{
    let update = if update_stats && input.session_id.is_some() {
        match &input.cost {
            Some(c) => match c.total_cost_usd {
                Some(total) => Some(
                    SessionUpdate {
                        cost: total,
                        lines_added: match c.total_lines_added {
                            Some(n) => n,
                            None => 0,
                        },
                        lines_removed: match c.total_lines_removed {
                            Some(n) => n,
                            None => 0,
                        },
                        model_name: owned(model_name_of(input)),
                        workspace_dir: owned(working_dir_of(input)),
                        device_id: Some(device_id.to_owned()),
                        token_breakdown: tokens,
                        max_tokens_observed: None,
                        active_time_seconds: None,
                        last_activity: None,
                    },
                ),
                None => None,
            },
            None => None,
        }
    } else {
        None
    };
    let has_transcript = input.session_id.is_some() && input.transcript.is_some();
    let tracks_tokens = update_stats && has_transcript;
    let scans_agents = store_exists && has_transcript;
    StatsPlan {
        update,
        tracks_tokens,
        learns: tracks_tokens && model_name_of(input).is_some() && adaptive_learning,
        scans_agents,
        stores_agents: update_stats && scans_agents,
    }
}

/// The statistics after an update, where the totals can hold it; else as they were.
pub open spec fn after_cost(
    before: StatsView,
    id: Seq<char>,
    u: SessionUpdate,
    at: Moment,
    store: StoredFacts,
) -> StatsView {
    if before.has_room(id, u, at, store) {
        before.after(id, u, at, store)
    } else {
        before
    }
}

/// The statistics after the tokens of a transcript are noted.
pub open spec fn after_tokens(before: StatsView, id: Seq<char>, tokens: Option<u32>) -> StatsView {
    match tokens {
        Some(n) => (StatsView { sessions: with_tokens_seen(before.sessions, id, n), ..before }),
        None => before,
    }
}

/// Whether the statistics are what they become when a session's cost is taken in.
pub open spec fn takes_in_cost(
    before: StatsView,
    after: StatsView,
    input: StatuslineInput,
    update_stats: bool,
    device_id: Seq<char>,
    tokens: Option<TokenBreakdown>,
    at: Moment,
    store: StoredFacts,
) -> bool {
    if records(input, update_stats) {
        exists|u: SessionUpdate| #[trigger]
            says_what(u, input, device_id, tokens) && after == after_cost(
                before,
                input.session_id->Some_0@,
                u,
                at,
                store,
            )
    } else {
        after == before
    }
}

/// Take what a session says into the statistics, and give back the cost of the day. First
/// the cost is recorded, where there is one; then the tokens of the transcript are noted,
/// whatever the cost. The cost that is given back is the one after the first step. Nothing
/// changes unless `update_stats` says so.
pub fn update_stats_and_daily_total(
    data: &mut StatsData,
    input: &StatuslineInput,
    update_stats: bool,
    device_id: &str,
    tokens: Option<TokenBreakdown>,
    current_tokens: Option<u32>,
    at: &Moment,
    store: StoredFacts,
) -> (r: Double)
    ensures
        exists|mid: StatsView|
            {
                &&& #[trigger] takes_in_cost(
                    old(data)@,
                    mid,
                    *input,
                    update_stats,
                    device_id@,
                    tokens,
                    *at,
                    store,
                )
                &&& r == mid.day(at.today@).total_cost
                &&& final(data)@ == (if update_stats && input.session_id is Some
                    && input.transcript is Some {
                    after_tokens(mid, input.session_id->Some_0@, current_tokens)
                } else {
                    mid
                })
            },
        !update_stats ==> final(data)@ == old(data)@,
{
    let plan = plan_stats(input, update_stats, device_id, tokens, false, false);
    match &input.session_id {
        Some(id) => match &plan.update {
            Some(u) => {
                proof {
                    assert(says_what(*u, *input, device_id@, tokens));
                }
                let _ = data.update_session(id.as_str(), u, at, store);
            },
            None => {},
        },
        None => {},
    }
    let ghost mid = data@;
    proof {
        assert(takes_in_cost(
            old(data)@,
            mid,
            *input,
            update_stats,
            device_id@,
            tokens,
            *at,
            store,
        ));
    }
    let total = data.daily_total(at.today.as_str());
    if plan.tracks_tokens {
        match (&input.session_id, current_tokens) {
            (Some(id), Some(n)) => data.update_max_tokens(id.as_str(), n),
            _ => {},
        }
    }
    total
}

// ---------------------------------------------------------------------------
// What is shown
// ---------------------------------------------------------------------------

/// What is found out about a session's surroundings.
#[derive(Debug)]
pub struct Surroundings {
    pub test_mode: bool,
    pub home: Option<String>,
    pub git: Option<GitFacts>,
    pub model: Option<ModelFacts>,
    pub transcript_context: Option<TranscriptContext>,
    pub transcript_duration: Option<u64>,
    pub session_duration: Option<u64>,
    pub daily_total: Double,
    pub token_rates: Option<TokenRateMetrics>,
    pub agents: Option<AgentsSummary>,
    pub api: Enrichment,
    /// Seconds since the epoch.
    pub now: i64,
    /// The template that the user has for the preset.
    pub user_format: Option<String>,
}

/// The directory that is shown.
pub open spec fn shown_dir(input: StatuslineInput) -> Seq<char> {
    match working_dir(input) {
        Some(d) => d,
        None => "~"@,
    }
}

/// Whether the facts that the line is written from are those of a session.
pub open spec fn are_facts_of(f: LineFacts, input: StatuslineInput, s: Surroundings) -> bool {
    let dir = shown_dir(input);
    &&& f.test_mode == s.test_mode
    &&& f.current_dir@ == dir
    &&& f.short_dir@ == cleaned(shortened(dir, opt_view(s.home)))
    &&& f.basename@ == match file_name_of(dir) {
        Some(n) => n,
        None => dir,
    }
    &&& refers_to(f.git, s.git)
    &&& refers_to(f.model, s.model)
    &&& f.transcript_context == s.transcript_context
    &&& f.transcript_duration == s.transcript_duration
    &&& f.session_duration == s.session_duration
    &&& refers_to(f.cost, input.cost)
    &&& f.daily_total == s.daily_total
    &&& refers_to(f.token_rates, s.token_rates)
    &&& f.now == s.now
}

/// Whether what the payload says besides is what a session says.
pub open spec fn are_extras_of(e: PayloadExtras, input: StatuslineInput, s: Surroundings) -> bool {
    &&& refers_to(e.context_window, input.context_window)
    &&& refers_to(e.rate_limits, input.rate_limits)
    &&& opt_str(e.effort) == match input.effort {
        Some(l) => opt_view(l.level),
        None => None,
    }
    &&& e.exceeds_200k == input.exceeds_200k_tokens
    &&& opt_str(e.version) == opt_view(input.version)
    &&& match input.workspace {
        Some(w) => refers_to(e.repo, w.repo),
        None => e.repo is None,
    }
    &&& refers_to(e.agents, s.agents)
    &&& refers_to(e.prompt_cache, input.prompt_cache)
}

/// Whether a reference, if there is one, is to a value, if there is one.
pub open spec fn refers_to<T>(r: Option<&T>, v: Option<T>) -> bool {
    match (r, v) {
        (Some(x), Some(y)) => *x == y,
        (None, None) => true,
        _ => false,
    }
}

fn borrowed<T>(v: &Option<T>) -> (r: Option<&T>)
    ensures
        refers_to(r, *v),
{
    match v {
        Some(x) => Some(x),
        None => None,
    }
}

fn text_ref(s: &Option<String>) -> (r: Option<&str>)
    ensures
        opt_str(r) == opt_view(*s),
{
    match s {
        Some(t) => Some(t.as_str()),
        None => None,
    }
}

/// The line of a session, from what it says and from its surroundings.
pub fn render_statusline(
    input: &StatuslineInput,
    s: &Surroundings,
    colors: &Colors,
    config: &LineConfig,
) -> (r: String)
    requires
        s.agents matches Some(a) ==> a.main.traffic() + a.agents.traffic() <= u64::MAX,
    ensures
        exists|f: LineFacts, e: PayloadExtras|
            {
                &&& #[trigger] are_facts_of(f, *input, *s)
                &&& #[trigger] are_extras_of(e, *input, *s)
                &&& r@ == output_text(*colors, f, e, s.api, *config, opt_view(s.user_format))
            },
{
    let dir = match working_dir_of(input) {
        Some(d) => d,
        None => "~",
    };
    let short = sanitize_for_terminal(shorten_path(dir, text_ref(&s.home)).as_str());
    let name = file_name(dir);
    let basename = match &name {
        Some(n) => n.as_str(),
        None => dir,
    };
    let facts = LineFacts {
        test_mode: s.test_mode,
        current_dir: dir,
        short_dir: short.as_str(),
        basename,
        git: borrowed(&s.git),
        model: borrowed(&s.model),
        transcript_context: s.transcript_context,
        transcript_duration: s.transcript_duration,
        session_duration: s.session_duration,
        cost: borrowed(&input.cost),
        daily_total: s.daily_total,
        token_rates: borrowed(&s.token_rates),
        now: s.now,
    };
    let effort = match &input.effort {
        Some(l) => text_ref(&l.level),
        None => None,
    };
    let repo: Option<&Repo> = match &input.workspace {
        Some(w) => borrowed(&w.repo),
        None => None,
    };
    let extras = PayloadExtras {
        context_window: borrowed(&input.context_window),
        rate_limits: borrowed(&input.rate_limits),
        effort,
        exceeds_200k: input.exceeds_200k_tokens,
        version: text_ref(&input.version),
        repo,
        agents: borrowed(&s.agents),
        prompt_cache: borrowed(&input.prompt_cache),
    };
    proof {
        assert(are_facts_of(facts, *input, *s));
        assert(are_extras_of(extras, *input, *s));
    }
    format_output_to_string(colors, &facts, &extras, &s.api, config, copied(&s.user_format))
}

/// What is shown in place of the line where there is no directory but the home one: a tilde
/// in the directory's colour.
pub fn home_only(current_dir: &str, colors: &Colors) -> (r: Option<String>)
    ensures
        opt_view(r) == if current_dir@.len() == 0 || current_dir@ == "~"@ {
            Some(colors.code(colors.theme.directory@) + "~"@ + colors.reset_code())
        } else {
            None
        },
{
    if current_dir.is_empty() || same(current_dir, "~") {
        Some(concat3(colors.directory().as_str(), "~", colors.reset().as_str()))
    } else {
        None
    }
}

} // verus!
