//! Statistics over sessions, and how an update changes them.

use crate::clock::{duration_since, parse_iso8601_to_unix, seconds_since, unix_time};
use crate::config::BurnRateConfig;
use crate::database::records::{copied, SessionUpdate};
use crate::database::session::{
    burn_mode, burn_mode_of, clamp_reset_cost, cost_growth, cost_growth_never_subtracts, growth,
    repeated_cost_adds_nothing, BurnMode,
};
use crate::database::tables::Moment;
use crate::double::{adding_never_lowers, adding_nothing, Double};
use crate::text::{has_prefix, opt_str, opt_view, same, starts_with, views};
use crate::text_map::TextMap;
use vstd::prelude::*;

verus! {

/// What is known of a session.
#[derive(Debug)]
pub struct SessionStats {
    pub last_updated: String,
    pub cost: Double,
    pub lines_added: u64,
    pub lines_removed: u64,
    pub start_time: Option<String>,
    pub max_tokens_observed: Option<u32>,
    pub active_time_seconds: Option<u64>,
    pub last_activity: Option<String>,
}

/// What a `SessionStats` says.
pub struct StatsFacts {
    pub last_updated: Seq<char>,
    pub cost: Double,
    pub lines_added: u64,
    pub lines_removed: u64,
    pub start_time: Option<Seq<char>>,
    pub max_tokens_observed: Option<u32>,
    pub active_time_seconds: Option<u64>,
    pub last_activity: Option<Seq<char>>,
}

impl View for SessionStats {
    type V = StatsFacts;

    open spec fn view(&self) -> StatsFacts {
        StatsFacts {
            last_updated: self.last_updated@,
            cost: self.cost,
            lines_added: self.lines_added,
            lines_removed: self.lines_removed,
            start_time: opt_view(self.start_time),
            max_tokens_observed: self.max_tokens_observed,
            active_time_seconds: self.active_time_seconds,
            last_activity: opt_view(self.last_activity),
        }
    }
}

/// What the sessions of a day come to.
#[derive(Debug)]
pub struct DailyStats {
    pub total_cost: Double,
    /// The sessions of the day, each once.
    pub sessions: Vec<String>,
    pub lines_added: u64,
    pub lines_removed: u64,
}

/// What a `DailyStats` says.
#[verifier::ext_equal]
pub struct DailyFacts {
    pub total_cost: Double,
    pub sessions: Seq<Seq<char>>,
    pub lines_added: u64,
    pub lines_removed: u64,
}

impl View for DailyStats {
    type V = DailyFacts;

    open spec fn view(&self) -> DailyFacts {
        DailyFacts {
            total_cost: self.total_cost,
            sessions: views(self.sessions@),
            lines_added: self.lines_added,
            lines_removed: self.lines_removed,
        }
    }
}

/// What the sessions of a month come to.
#[derive(Debug, Clone, Copy, PartialEq, Eq, Structural)]
pub struct MonthlyStats {
    pub total_cost: Double,
    pub sessions: u64,
    pub lines_added: u64,
    pub lines_removed: u64,
}

/// What all sessions come to.
#[derive(Debug, Clone, Copy, PartialEq, Eq, Structural)]
pub struct AllTimeStats {
    pub total_cost: Double,
    pub sessions: u64,
}

/// Statistics over all sessions that are known.
#[derive(Debug)]
pub struct StatsData {
    pub sessions: TextMap<SessionStats>,
    pub daily: TextMap<DailyStats>,
    pub monthly: TextMap<MonthlyStats>,
    pub all_time: AllTimeStats,
    pub last_updated: String,
}

/// What a `StatsData` says.
#[verifier::ext_equal]
pub struct StatsView {
    pub sessions: Map<Seq<char>, StatsFacts>,
    pub daily: Map<Seq<char>, DailyFacts>,
    pub monthly: Map<Seq<char>, MonthlyStats>,
    pub all_time: AllTimeStats,
    pub last_updated: Seq<char>,
}

impl View for StatsData {
    type V = StatsView;

    open spec fn view(&self) -> StatsView {
        StatsView {
            sessions: self.sessions@.map_values(|s: SessionStats| s@),
            daily: self.daily@.map_values(|d: DailyStats| d@),
            monthly: self.monthly@,
            all_time: self.all_time,
            last_updated: self.last_updated@,
        }
    }
}

// ---------------------------------------------------------------------------
// Whether a session was reset
// ---------------------------------------------------------------------------

/// Whether two start times are too far apart to be the same.
pub open spec fn starts_differ(stored: Option<u64>, known: Option<u64>) -> bool {
    match (stored, known) {
        (Some(a), Some(b)) => a > b + 1 || b > a + 1,
        _ => false,
    }
}

/// Whether two start times are more than a second apart. A time that is not known tells
/// nothing.
pub fn start_times_differ(stored: Option<u64>, known: Option<u64>) -> (r: bool)
    ensures
        r == starts_differ(stored, known),
{
    match (stored, known) {
        (Some(a), Some(b)) => {
            if a >= b {
                a - b > 1
            } else {
                b - a > 1
            }
        },
        _ => false,
    }
}

/// The Unix time of a text, where there is one.
pub open spec fn unix_of(t: Option<Seq<char>>) -> Option<u64> {
    match t {
        Some(s) => unix_time(s),
        None => None,
    }
}

fn unix_of_text(t: Option<&str>) -> (r: Option<u64>)
    ensures
        r == unix_of(opt_str(t)),
{
    match t {
        Some(s) => parse_iso8601_to_unix(s),
        None => None,
    }
}

/// Whether a session has started again since it was last seen: in the mode that resets,
/// the start that is stored is then another one than the start that is known.
pub fn session_was_reset(config: &BurnRateConfig, stored: Option<&str>, known: Option<&str>) -> (r:
    bool)
    ensures
        r == (burn_mode(config.mode@) is AutoReset && starts_differ(
            unix_of(opt_str(stored)),
            unix_of(opt_str(known)),
        )),
{
    match burn_mode_of(config.mode.as_str()) {
        BurnMode::AutoReset => start_times_differ(unix_of_text(stored), unix_of_text(known)),
        _ => false,
    }
}

// ---------------------------------------------------------------------------
// What an update changes
// ---------------------------------------------------------------------------

/// What an update meets in the store.
#[derive(Debug)]
pub struct StoredFacts {
    /// The session has started again since it was last seen.
    pub was_reset: bool,
    pub active_time_seconds: Option<u64>,
    pub last_activity: Option<String>,
    /// The session is known to have been active this month already.
    pub seen_this_month: bool,
}

impl StatsView {
    /// What is known of a session that goes on.
    pub open spec fn known(self, id: Seq<char>, was_reset: bool) -> Option<StatsFacts> {
        if self.sessions.dom().contains(id) && !was_reset {
            Some(self.sessions[id])
        } else {
            None
        }
    }

    /// What an update adds to every total cost.
    pub open spec fn cost_added(self, id: Seq<char>, u: SessionUpdate, was_reset: bool) -> Double {
        cost_growth(
            u.cost,
            match self.known(id, was_reset) {
                Some(s) => s.cost,
                None => Double::zero(),
            },
        )
    }

    /// The lines that an update adds to the lines added.
    pub open spec fn lines_gained(self, id: Seq<char>, u: SessionUpdate, was_reset: bool) -> int {
        growth(
            u.lines_added as int,
            match self.known(id, was_reset) {
                Some(s) => s.lines_added as int,
                None => 0,
            },
        )
    }

    /// The lines that an update adds to the lines removed.
    pub open spec fn lines_lost(self, id: Seq<char>, u: SessionUpdate, was_reset: bool) -> int {
        growth(
            u.lines_removed as int,
            match self.known(id, was_reset) {
                Some(s) => s.lines_removed as int,
                None => 0,
            },
        )
    }

    /// The statistics of a day; nothing before its first session.
    pub open spec fn day(self, today: Seq<char>) -> DailyFacts {
        if self.daily.dom().contains(today) {
            self.daily[today]
        } else {
            DailyFacts {
                total_cost: Double::zero(),
                sessions: Seq::empty(),
                lines_added: 0,
                lines_removed: 0,
            }
        }
    }

    /// The statistics of a month; nothing before its first session.
    pub open spec fn month(self, month: Seq<char>) -> MonthlyStats {
        if self.monthly.dom().contains(month) {
            self.monthly[month]
        } else {
            MonthlyStats {
                total_cost: Double { bits: 0 },
                sessions: 0,
                lines_added: 0,
                lines_removed: 0,
            }
        }
    }

    /// Whether some day of a month has seen a session.
    pub open spec fn seen_in(self, month: Seq<char>, id: Seq<char>) -> bool {
        exists|date: Seq<char>| #[trigger]
            self.daily.dom().contains(date) && has_prefix(date, month)
                && self.daily[date].sessions.contains(id)
    }

    /// Whether an update is the first of its session in its month.
    pub open spec fn new_this_month(self, id: Seq<char>, at: Moment, store: StoredFacts) -> bool {
        !store.seen_this_month && !self.seen_in(at.month@, id) && !self.day(
            at.today@,
        ).sessions.contains(id)
    }

    /// Whether the totals hold what an update adds.
    pub open spec fn has_room(
        self,
        id: Seq<char>,
        u: SessionUpdate,
        at: Moment,
        store: StoredFacts,
    ) -> bool {
        let gained = self.lines_gained(id, u, store.was_reset);
        let lost = self.lines_lost(id, u, store.was_reset);
        &&& self.day(at.today@).lines_added + gained <= u64::MAX
        &&& self.day(at.today@).lines_removed + lost <= u64::MAX
        &&& self.month(at.month@).lines_added + gained <= u64::MAX
        &&& self.month(at.month@).lines_removed + lost <= u64::MAX
        &&& self.month(at.month@).sessions < u64::MAX
        &&& self.all_time.sessions < u64::MAX
    }

    /// What is known of a session after an update.
    pub open spec fn session_after(
        self,
        id: Seq<char>,
        u: SessionUpdate,
        at: Moment,
        store: StoredFacts,
    ) -> StatsFacts {
        let known = self.known(id, store.was_reset);
        StatsFacts {
            last_updated: at.now@,
            cost: u.cost,
            lines_added: u.lines_added,
            lines_removed: u.lines_removed,
            start_time: match known {
                Some(s) => s.start_time,
                None => Some(at.now@),
            },
            max_tokens_observed: match known {
                Some(s) => s.max_tokens_observed,
                None => None,
            },
            active_time_seconds: store.active_time_seconds,
            last_activity: opt_view(store.last_activity),
        }
    }

    /// The statistics of the day after an update.
    pub open spec fn day_after(
        self,
        id: Seq<char>,
        u: SessionUpdate,
        at: Moment,
        store: StoredFacts,
    ) -> DailyFacts {
        let day = self.day(at.today@);
        DailyFacts {
            total_cost: day.total_cost.plus(self.cost_added(id, u, store.was_reset)),
            sessions: if day.sessions.contains(id) {
                day.sessions
            } else {
                day.sessions.push(id)
            },
            lines_added: (day.lines_added + self.lines_gained(id, u, store.was_reset)) as u64,
            lines_removed: (day.lines_removed + self.lines_lost(id, u, store.was_reset)) as u64,
        }
    }

    /// The statistics of the month after an update.
    pub open spec fn month_after(
        self,
        id: Seq<char>,
        u: SessionUpdate,
        at: Moment,
        store: StoredFacts,
    ) -> MonthlyStats {
        let month = self.month(at.month@);
        MonthlyStats {
            total_cost: month.total_cost.plus(self.cost_added(id, u, store.was_reset)),
            sessions: if self.new_this_month(id, at, store) {
                (month.sessions + 1) as u64
            } else {
                month.sessions
            },
            lines_added: (month.lines_added + self.lines_gained(id, u, store.was_reset)) as u64,
            lines_removed: (month.lines_removed + self.lines_lost(id, u, store.was_reset)) as u64,
        }
    }

    /// The statistics after an update.
    pub open spec fn after(
        self,
        id: Seq<char>,
        u: SessionUpdate,
        at: Moment,
        store: StoredFacts,
    ) -> StatsView {
        StatsView {
            sessions: self.sessions.insert(id, self.session_after(id, u, at, store)),
            daily: self.daily.insert(at.today@, self.day_after(id, u, at, store)),
            monthly: self.monthly.insert(at.month@, self.month_after(id, u, at, store)),
            all_time: AllTimeStats {
                total_cost: self.all_time.total_cost.plus(
                    self.cost_added(id, u, store.was_reset),
                ),
                sessions: if self.known(id, store.was_reset) is Some {
                    self.all_time.sessions
                } else {
                    (self.all_time.sessions + 1) as u64
                },
            },
            last_updated: at.now@,
        }
    }
}

/// What a count has grown by.
fn count_growth(new: u64, old: u64) -> (r: u64)
    ensures
        r == growth(new as int, old as int),
{
    if new >= old {
        new - old
    } else if 2 * (new as u128) < old as u128 {
        new
    } else {
        0
    }
}

fn listed(sessions: &Vec<String>, id: &str) -> (r: bool)
    ensures
        r == views(sessions@).contains(id@),
{
    let n: usize = sessions.len();
    let mut i: usize = 0;
    while i < n
        invariant
            n == sessions@.len(),
            i <= n,
            forall|j: int| 0 <= j < i ==> (#[trigger] views(sessions@)[j]) != id@,
        decreases n - i,
    {
        if same(sessions[i].as_str(), id) {
            proof {
                assert(views(sessions@)[i as int] == id@);
            }
            return true;
        }
        i += 1;
    }
    false
}

fn copy_names(v: &Vec<String>) -> (r: Vec<String>)
    ensures
        views(r@) == views(v@),
{
    let mut out: Vec<String> = Vec::new();
    let n: usize = v.len();
    let mut i: usize = 0;
    while i < n
        invariant
            n == v@.len(),
            i <= n,
            out@.len() == i,
            forall|j: int| 0 <= j < i ==> (#[trigger] out@[j])@ == v@[j]@,
        decreases n - i,
    {
        out.push(v[i].clone());
        i += 1;
    }
    proof {
        assert(views(out@) =~= views(v@));
    }
    out
}

impl StatsData {
    pub fn new() -> (r: StatsData)
        ensures
            r@.sessions == Map::<Seq<char>, StatsFacts>::empty(),
            r@.daily == Map::<Seq<char>, DailyFacts>::empty(),
            r@.monthly == Map::<Seq<char>, MonthlyStats>::empty(),
            r@.all_time == (AllTimeStats { total_cost: Double::zero(), sessions: 0 }),
            r@.last_updated == Seq::<char>::empty(),
    {
        let r = StatsData {
            sessions: TextMap::new(),
            daily: TextMap::new(),
            monthly: TextMap::new(),
            all_time: AllTimeStats { total_cost: Double { bits: 0 }, sessions: 0 },
            last_updated: String::new(),
        };
        proof {
            assert(r@.sessions =~= Map::<Seq<char>, StatsFacts>::empty());
            assert(r@.daily =~= Map::<Seq<char>, DailyFacts>::empty());
            assert(r@.last_updated =~= Seq::<char>::empty());
        }
        r
    }

    fn known(&self, id: &str, was_reset: bool) -> (r: Option<&SessionStats>)
        ensures
            match r {
                Some(s) => self@.known(id@, was_reset) == Some(s@),
                None => self@.known(id@, was_reset) is None,
            },
    {
        if was_reset {
            None
        } else {
            self.sessions.get(id)
        }
    }

    /// Whether some day of a month has seen a session.
    pub fn session_seen_in(&self, month: &str, id: &str) -> (r: bool)
        ensures
            r == self@.seen_in(month@, id@),
    {
        let n: usize = self.daily.len();
        let mut i: usize = 0;
        while i < n
            invariant
                n == self.daily.names().len(),
                i <= n,
                forall|j: int|
                    0 <= j < i ==> !(has_prefix(#[trigger] self.daily.names()[j], month@)
                        && views(self.daily@[self.daily.names()[j]].sessions@).contains(id@)),
            decreases n - i,
        {
            let date = self.daily.name_at(i);
            let day = self.daily.value_at(i);
            if starts_with(date, month) && listed(&day.sessions, id) {
                proof {
                    assert(self@.daily.dom().contains(date@));
                    assert(self@.daily[date@] == day@);
                }
                return true;
            }
            i += 1;
        }
        proof {
            assert forall|date: Seq<char>| #[trigger]
                self@.daily.dom().contains(date) implies !(has_prefix(date, month@)
                && self@.daily[date].sessions.contains(id@)) by {
                assert(self.daily@.dom().contains(date));
                assert(self.daily.names().contains(date));
                let j = choose|j: int|
                    0 <= j < self.daily.names().len() && self.daily.names()[j] == date;
                assert(!(has_prefix(self.daily.names()[j], month@)
                    && views(self.daily@[self.daily.names()[j]].sessions@).contains(id@)));
            }
        }
        false
    }

    /// Take in an update of a session, and give back the costs of the day and the month.
    /// Only what is new about the session's counters is added to the totals. Where a
    /// total cannot hold the sum, nothing changes and nothing is given back.
    pub fn update_session(
        &mut self,
        id: &str,
        update: &SessionUpdate,
        at: &Moment,
        store: StoredFacts,
    ) -> (r: Option<(Double, Double)>)
        ensures
            r is Some <==> old(self)@.has_room(id@, *update, *at, store),
            r is Some ==> final(self)@ == old(self)@.after(id@, *update, *at, store),
            r is None ==> final(self)@ == old(self)@,
            r matches Some(t) ==> t.0 == final(self)@.daily[at.today@].total_cost && t.1
                == final(self)@.monthly[at.month@].total_cost,
    {
        let ghost before = self@;
        let was_reset = store.was_reset;
        let (last_cost, last_added, last_removed): (Double, u64, u64) = match self.known(
            id,
            was_reset,
        ) {
            Some(s) => (s.cost, s.lines_added, s.lines_removed),
            None => (Double { bits: 0 }, 0, 0),
        };
        let cost = clamp_reset_cost(update.cost, last_cost);
        let gained: u64 = count_growth(update.lines_added, last_added);
        let lost: u64 = count_growth(update.lines_removed, last_removed);
        let today = at.today.as_str();
        let (day_cost, day_added, day_removed, day_sessions): (Double, u64, u64, Vec<String>) =
            match self.daily.get(today) {
            Some(d) => (
                d.total_cost,
                d.lines_added,
                d.lines_removed,
                copy_names(&d.sessions),
            ),
            None => (Double { bits: 0 }, 0, 0, Vec::new()),
        };
        proof {
            assert(views(day_sessions@) =~= before.day(today@).sessions);
        }
        let month = match self.monthly.get(at.month.as_str()) {
            Some(m) => *m,
            None => MonthlyStats {
                total_cost: Double { bits: 0 },
                sessions: 0,
                lines_added: 0,
                lines_removed: 0,
            },
        };
        let room = day_added <= u64::MAX - gained && day_removed <= u64::MAX - lost
            && month.lines_added <= u64::MAX - gained && month.lines_removed <= u64::MAX - lost
            && month.sessions < u64::MAX && self.all_time.sessions < u64::MAX;
        if !room {
            return None;
        }
        let is_new_today = !listed(&day_sessions, id);
        let is_new_this_month = !store.seen_this_month && is_new_today && !self.session_seen_in(
            at.month.as_str(),
            id,
        );
        let (start_time, max_tokens_observed, is_known) = match self.known(id, was_reset) {
            Some(s) => (copied(&s.start_time), s.max_tokens_observed, true),
            None => (Some(at.now.clone()), None, false),
        };
        let session = SessionStats {
            last_updated: at.now.clone(),
            cost: update.cost,
            lines_added: update.lines_added,
            lines_removed: update.lines_removed,
            start_time,
            max_tokens_observed,
            active_time_seconds: store.active_time_seconds,
            last_activity: store.last_activity,
        };
        let mut names = day_sessions;
        if is_new_today {
            names.push(id.to_owned());
        }
        let day = DailyStats {
            total_cost: day_cost.sum(&cost),
            sessions: names,
            lines_added: day_added + gained,
            lines_removed: day_removed + lost,
        };
        let next_month = MonthlyStats {
            total_cost: month.total_cost.sum(&cost),
            sessions: if is_new_this_month {
                month.sessions + 1
            } else {
                month.sessions
            },
            lines_added: month.lines_added + gained,
            lines_removed: month.lines_removed + lost,
        };
        let totals = (day.total_cost, next_month.total_cost);
        proof {
            assert(day@ =~= before.day_after(id@, *update, *at, store)) by {
                assert(day@.sessions =~= before.day_after(id@, *update, *at, store).sessions);
            }
        }
        let ghost sessions = self.sessions@;
        let ghost daily = self.daily@;
        self.sessions.insert(id.to_owned(), session);
        self.daily.insert(at.today.clone(), day);
        self.monthly.insert(at.month.clone(), next_month);
        self.all_time = AllTimeStats {
            total_cost: self.all_time.total_cost.sum(&cost),
            sessions: if is_known {
                self.all_time.sessions
            } else {
                self.all_time.sessions + 1
            },
        };
        self.last_updated = at.now.clone();
        proof {
            let after = before.after(id@, *update, *at, store);
            assert(self@.sessions =~= after.sessions);
            assert(self@.daily =~= after.daily);
            assert(self@ =~= after);
        }
        Some(totals)
    }

    /// Note how many tokens a session has used. What is kept is the largest number seen; a
    /// session that is not known stays so.
    pub fn update_max_tokens(&mut self, id: &str, current_tokens: u32)
        ensures
            final(self)@ == (StatsView {
                sessions: with_tokens_seen(old(self)@.sessions, id@, current_tokens),
                ..old(self)@
            }),
    {
        let ghost before = self@;
        match self.sessions.get(id) {
            Some(s) => {
                let most: u32 = match s.max_tokens_observed {
                    Some(m) => if m >= current_tokens {
                        m
                    } else {
                        current_tokens
                    },
                    None => current_tokens,
                };
                let next = SessionStats {
                    last_updated: s.last_updated.clone(),
                    cost: s.cost,
                    lines_added: s.lines_added,
                    lines_removed: s.lines_removed,
                    start_time: copied(&s.start_time),
                    max_tokens_observed: Some(most),
                    active_time_seconds: s.active_time_seconds,
                    last_activity: copied(&s.last_activity),
                };
                self.sessions.insert(id.to_owned(), next);
                proof {
                    assert(self@.sessions =~= with_tokens_seen(
                        before.sessions,
                        id@,
                        current_tokens,
                    ));
                }
            },
            None => {},
        }
    }

    /// What the sessions of a day have cost.
    pub fn daily_total(&self, today: &str) -> (r: Double)
        ensures
            r == self@.day(today@).total_cost,
    {
        match self.daily.get(today) {
            Some(d) => d.total_cost,
            None => Double { bits: 0 },
        }
    }
}

/// Sessions after one of them has used so many tokens.
pub open spec fn with_tokens_seen(
    sessions: Map<Seq<char>, StatsFacts>,
    id: Seq<char>,
    tokens: u32,
) -> Map<Seq<char>, StatsFacts> {
    if sessions.dom().contains(id) {
        let s = sessions[id];
        sessions.insert(
            id,
            StatsFacts {
                max_tokens_observed: Some(
                    match s.max_tokens_observed {
                        Some(m) => if m >= tokens {
                            m
                        } else {
                            tokens
                        },
                        None => tokens,
                    },
                ),
                ..s
            },
        )
    } else {
        sessions
    }
}

// ---------------------------------------------------------------------------
// How long a session has lasted
// ---------------------------------------------------------------------------

/// When a session started, in Unix time.
pub open spec fn started_at(data: StatsView, id: Seq<char>) -> Option<u64> {
    if data.sessions.dom().contains(id) {
        unix_of(data.sessions[id].start_time)
    } else {
        None
    }
}

/// Seconds since a session started; absent where the start, or the time, is not known.
pub fn get_session_duration(data: &StatsData, id: &str, now: Option<u64>) -> (r: Option<u64>)
    ensures
        r == seconds_since(started_at(data@, id@), now),
{
    let start = match data.sessions.get(id) {
        Some(s) => match &s.start_time {
            Some(t) => parse_iso8601_to_unix(t.as_str()),
            None => None,
        },
        None => None,
    };
    duration_since(start, now)
}

/// The duration that counts: the active time where that is what is counted and it is
/// known, else the time since the start.
pub open spec fn counted_duration(mode: BurnMode, active: Option<u64>, wall: Option<u64>) -> Option<
    u64,
> {
    if mode is ActiveTime && active is Some {
        active
    } else {
        wall
    }
}

/// The duration that counts: the active time where that is what is counted and it is
/// known, else the time since the start.
pub fn duration_by_mode(mode: BurnMode, active: Option<u64>, wall: Option<u64>) -> (r: Option<u64>)
    ensures
        r == counted_duration(mode, active, wall),
{
    match mode {
        BurnMode::ActiveTime => match active {
            Some(t) => Some(t),
            None => wall,
        },
        _ => wall,
    }
}

/// How long a session has lasted, counted as the settings say. `active` is the active time
/// that is stored for it.
pub fn get_session_duration_by_mode(
    data: &StatsData,
    config: &BurnRateConfig,
    id: &str,
    active: Option<u64>,
    now: Option<u64>,
) -> (r: Option<u64>)
    ensures
        r == counted_duration(
            burn_mode(config.mode@),
            active,
            seconds_since(started_at(data@, id@), now),
        ),
{
    duration_by_mode(
        burn_mode_of(config.mode.as_str()),
        active,
        get_session_duration(data, id, now),
    )
}

// ---------------------------------------------------------------------------
// Laws
// ---------------------------------------------------------------------------

/// Whether a number is an amount of money that a total can begin with: finite or not, but
/// not below zero.
pub open spec fn is_money(x: Double) -> bool {
    !x.is_nan() && !x.is_negative()
}

/// An update adds the same cost to its day, its month and the whole, and never takes
/// anything away.
pub proof fn totals_grow_together(
    s: StatsView,
    id: Seq<char>,
    u: SessionUpdate,
    at: Moment,
    store: StoredFacts,
)
    requires
        s.has_room(id, u, at, store),
        u.cost.is_finite(),
        s.known(id, store.was_reset) matches Some(k) ==> k.cost.is_finite(),
        s.day(at.today@).total_cost.can_grow(),
        s.month(at.month@).total_cost.can_grow(),
        s.all_time.total_cost.can_grow(),
    ensures
        ({
            let t = s.after(id, u, at, store);
            let d = s.cost_added(id, u, store.was_reset);
            &&& Double::zero().at_most(d)
            &&& t.day(at.today@).total_cost == s.day(at.today@).total_cost.plus(d)
            &&& t.month(at.month@).total_cost == s.month(at.month@).total_cost.plus(d)
            &&& t.all_time.total_cost == s.all_time.total_cost.plus(d)
            &&& s.day(at.today@).total_cost.at_most(t.day(at.today@).total_cost)
            &&& s.month(at.month@).total_cost.at_most(t.month(at.month@).total_cost)
            &&& s.all_time.total_cost.at_most(t.all_time.total_cost)
            &&& t.day(at.today@).lines_added >= s.day(at.today@).lines_added
            &&& t.day(at.today@).lines_removed >= s.day(at.today@).lines_removed
        }),
{
    let d = s.cost_added(id, u, store.was_reset);
    cost_growth_never_subtracts(
        u.cost,
        match s.known(id, store.was_reset) {
            Some(k) => k.cost,
            None => Double::zero(),
        },
    );
    adding_never_lowers(s.day(at.today@).total_cost, d);
    adding_never_lowers(s.month(at.month@).total_cost, d);
    adding_never_lowers(s.all_time.total_cost, d);
}

/// An update that repeats what a session said last adds nothing to any total, and counts
/// no session twice.
pub proof fn repeated_update_adds_nothing(
    s: StatsView,
    id: Seq<char>,
    u: SessionUpdate,
    at: Moment,
    first: StoredFacts,
    again: StoredFacts,
)
    requires
        s.has_room(id, u, at, first),
        !again.was_reset,
        u.cost.is_finite(),
        is_money(s.after(id, u, at, first).day(at.today@).total_cost),
        is_money(s.after(id, u, at, first).month(at.month@).total_cost),
        is_money(s.after(id, u, at, first).all_time.total_cost),
    ensures
        ({
            let t = s.after(id, u, at, first);
            let v = t.after(id, u, at, again);
            &&& v.day(at.today@) == t.day(at.today@)
            &&& v.month(at.month@) == t.month(at.month@)
            &&& v.all_time == t.all_time
        }),
{
    let t = s.after(id, u, at, first);
    let v = t.after(id, u, at, again);
    assert(t.day(at.today@).sessions.contains(id)) by {
        let day = s.day(at.today@);
        if !day.sessions.contains(id) {
            assert(day.sessions.push(id)[day.sessions.len() as int] == id);
        }
    }
    repeated_cost_adds_nothing(u.cost);
    adding_nothing(t.day(at.today@).total_cost);
    adding_nothing(t.month(at.month@).total_cost);
    adding_nothing(t.all_time.total_cost);
    assert(v.day(at.today@) =~= t.day(at.today@));
}

/// An update leaves other sessions, other days and other months as they are.
pub proof fn others_stay(
    s: StatsView,
    id: Seq<char>,
    u: SessionUpdate,
    at: Moment,
    store: StoredFacts,
    other: Seq<char>,
)
    ensures
        ({
            let t = s.after(id, u, at, store);
            &&& other != id ==> t.known(other, false) == s.known(other, false)
            &&& other != at.today@ ==> t.day(other) == s.day(other)
            &&& other != at.month@ ==> t.month(other) == s.month(other)
        }),
{
}

/// The largest number of tokens seen never falls, and is at least the last one seen.
pub proof fn most_tokens_never_fall(
    sessions: Map<Seq<char>, StatsFacts>,
    id: Seq<char>,
    tokens: u32,
)
    requires
        sessions.dom().contains(id),
    ensures
        ({
            let m = with_tokens_seen(sessions, id, tokens)[id].max_tokens_observed;
            &&& m matches Some(n) && n >= tokens
            &&& sessions[id].max_tokens_observed matches Some(b) ==> m->Some_0 >= b
        }),
{
}

} // verus!
