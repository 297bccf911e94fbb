//! The rows that are kept.

use crate::double::Double;
use crate::text::opt_view;
use vstd::prelude::*;

verus! {

/// Tokens of a conversation by kind, as a transcript reports them.
#[derive(Debug, Clone, Copy, PartialEq, Eq, Structural)]
pub struct TokenBreakdown {
    pub input_tokens: u32,
    pub output_tokens: u32,
    pub cache_read_tokens: u32,
    pub cache_creation_tokens: u32,
}

/// Tokens by kind, as they are stored.
#[derive(Debug, Clone, Copy, PartialEq, Eq, Structural)]
pub struct Tokens {
    pub input: i64,
    pub output: i64,
    pub cache_read: i64,
    pub cache_creation: i64,
}

/// What a session reports of itself. Cost and lines are counters of the process that
/// runs the session: they start again from zero when the session is resumed.
#[derive(Debug)]
pub struct SessionUpdate {
    pub cost: Double,
    pub lines_added: u64,
    pub lines_removed: u64,
    pub model_name: Option<String>,
    pub workspace_dir: Option<String>,
    pub device_id: Option<String>,
    pub token_breakdown: Option<TokenBreakdown>,
    pub max_tokens_observed: Option<u32>,
    pub active_time_seconds: Option<u64>,
    pub last_activity: Option<String>,
}

impl SessionUpdate {
    /// Whether the counters fit the columns they are stored in.
    pub open spec fn storable(self) -> bool {
        &&& self.lines_added <= i64::MAX
        &&& self.lines_removed <= i64::MAX
        &&& self.active_time_seconds matches Some(t) ==> t <= i64::MAX
    }

    /// The tokens that were reported; none of a kind that was not.
    pub open spec fn tokens(self) -> Tokens {
        match self.token_breakdown {
            Some(b) => (Tokens {
                input: b.input_tokens as i64,
                output: b.output_tokens as i64,
                cache_read: b.cache_read_tokens as i64,
                cache_creation: b.cache_creation_tokens as i64,
            }),
            None => (Tokens { input: 0, output: 0, cache_read: 0, cache_creation: 0 }),
        }
    }

    /// The tokens that were reported; none of a kind that was not.
    pub fn reported_tokens(&self) -> (r: Tokens)
        ensures
            r == self.tokens(),
    {
        match &self.token_breakdown {
            Some(b) => Tokens {
                input: b.input_tokens as i64,
                output: b.output_tokens as i64,
                cache_read: b.cache_read_tokens as i64,
                cache_creation: b.cache_creation_tokens as i64,
            },
            None => Tokens { input: 0, output: 0, cache_read: 0, cache_creation: 0 },
        }
    }

    /// The same update with no active time taken as zero, and no activity as `now`.
    pub fn with_burn_rate_defaults(self, now: &str) -> (r: SessionUpdate)
        ensures
            r.cost == self.cost,
            r.lines_added == self.lines_added,
            r.lines_removed == self.lines_removed,
            r.model_name == self.model_name,
            r.workspace_dir == self.workspace_dir,
            r.device_id == self.device_id,
            r.token_breakdown == self.token_breakdown,
            r.max_tokens_observed == self.max_tokens_observed,
            r.active_time_seconds == Some(
                match self.active_time_seconds {
                    Some(t) => t,
                    None => 0u64,
                },
            ),
            opt_view(r.last_activity) == Some(
                match self.last_activity {
                    Some(t) => t@,
                    None => now@,
                },
            ),
    {
        let mut r = self;
        if r.active_time_seconds.is_none() {
            r.active_time_seconds = Some(0);
        }
        if r.last_activity.is_none() {
            r.last_activity = Some(now.to_owned());
        }
        r
    }
}

/// Requests and tokens of a session, told apart by who made them.
#[derive(Debug, Clone, Copy, PartialEq, Eq, Structural)]
pub struct Attribution {
    pub agent_count: i64,
    pub agent_requests: i64,
    pub agent_input_tokens: i64,
    pub agent_output_tokens: i64,
    pub main_requests: i64,
    pub main_input_tokens: i64,
    pub main_output_tokens: i64,
}

/// What is kept of a session.
#[derive(Debug)]
pub struct SessionRecord {
    pub start_time: String,
    pub last_updated: String,
    pub cost: Double,
    pub lines_added: i64,
    pub lines_removed: i64,
    pub model_name: Option<String>,
    pub workspace_dir: Option<String>,
    pub device_id: Option<String>,
    pub tokens: Tokens,
    pub max_tokens_observed: Option<i64>,
    pub active_time_seconds: Option<i64>,
    pub last_activity: Option<String>,
    /// Version of the program that ran the session.
    pub version: Option<String>,
    pub attribution: Attribution,
}

/// What a `SessionRecord` says.
pub struct SessionFacts {
    pub start_time: Seq<char>,
    pub last_updated: Seq<char>,
    pub cost: Double,
    pub lines_added: i64,
    pub lines_removed: i64,
    pub model_name: Option<Seq<char>>,
    pub workspace_dir: Option<Seq<char>>,
    pub device_id: Option<Seq<char>>,
    pub tokens: Tokens,
    pub max_tokens_observed: Option<i64>,
    pub active_time_seconds: Option<i64>,
    pub last_activity: Option<Seq<char>>,
    pub version: Option<Seq<char>>,
    pub attribution: Attribution,
}

impl View for SessionRecord {
    type V = SessionFacts;

    open spec fn view(&self) -> SessionFacts {
        SessionFacts {
            start_time: self.start_time@,
            last_updated: self.last_updated@,
            cost: self.cost,
            lines_added: self.lines_added,
            lines_removed: self.lines_removed,
            model_name: opt_view(self.model_name),
            workspace_dir: opt_view(self.workspace_dir),
            device_id: opt_view(self.device_id),
            tokens: self.tokens,
            max_tokens_observed: self.max_tokens_observed,
            active_time_seconds: self.active_time_seconds,
            last_activity: opt_view(self.last_activity),
            version: opt_view(self.version),
            attribution: self.attribution,
        }
    }
}

impl SessionRecord {
    /// A copy that says the same.
    pub fn duplicate(&self) -> (r: SessionRecord)
        ensures
            r@ == self@,
    {
        SessionRecord {
            start_time: self.start_time.clone(),
            last_updated: self.last_updated.clone(),
            cost: self.cost,
            lines_added: self.lines_added,
            lines_removed: self.lines_removed,
            model_name: copied(&self.model_name),
            workspace_dir: copied(&self.workspace_dir),
            device_id: copied(&self.device_id),
            tokens: self.tokens,
            max_tokens_observed: self.max_tokens_observed,
            active_time_seconds: self.active_time_seconds,
            last_activity: copied(&self.last_activity),
            version: copied(&self.version),
            attribution: self.attribution,
        }
    }
}

/// A work period that has ended: a session as it was before its counters were reset.
#[derive(Debug)]
pub struct ArchiveRecord {
    pub session_id: String,
    pub start_time: String,
    pub end_time: String,
    pub archived_at: String,
    pub cost: Double,
    pub lines_added: i64,
    pub lines_removed: i64,
    pub active_time_seconds: Option<i64>,
    pub last_activity: Option<String>,
    pub model_name: Option<String>,
    pub workspace_dir: Option<String>,
    pub device_id: Option<String>,
}

/// What an `ArchiveRecord` says.
pub struct ArchiveFacts {
    pub session_id: Seq<char>,
    pub start_time: Seq<char>,
    pub end_time: Seq<char>,
    pub archived_at: Seq<char>,
    pub cost: Double,
    pub lines_added: i64,
    pub lines_removed: i64,
    pub active_time_seconds: Option<i64>,
    pub last_activity: Option<Seq<char>>,
    pub model_name: Option<Seq<char>>,
    pub workspace_dir: Option<Seq<char>>,
    pub device_id: Option<Seq<char>>,
}

impl View for ArchiveRecord {
    type V = ArchiveFacts;

    open spec fn view(&self) -> ArchiveFacts {
        ArchiveFacts {
            session_id: self.session_id@,
            start_time: self.start_time@,
            end_time: self.end_time@,
            archived_at: self.archived_at@,
            cost: self.cost,
            lines_added: self.lines_added,
            lines_removed: self.lines_removed,
            active_time_seconds: self.active_time_seconds,
            last_activity: opt_view(self.last_activity),
            model_name: opt_view(self.model_name),
            workspace_dir: opt_view(self.workspace_dir),
            device_id: opt_view(self.device_id),
        }
    }
}

/// What all sessions of a day, or of a month, come to.
#[derive(Debug, Clone, Copy, PartialEq, Eq, Structural)]
pub struct PeriodTotals {
    pub total_cost: Double,
    pub total_lines_added: i64,
    pub total_lines_removed: i64,
    pub session_count: i64,
    pub tokens: Tokens,
}

/// A copy of an optional text.
pub(crate) fn copied(s: &Option<String>) -> (r: Option<String>)
    ensures
        opt_view(r) == opt_view(*s),
{
    match s {
        Some(t) => Some(t.clone()),
        None => None,
    }
}

} // verus!
