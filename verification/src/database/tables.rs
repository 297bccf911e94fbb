//! The rows that an update touches, and what it makes of them.

use crate::agents::AgentsSummary;
use crate::clock::{
    duration_since, elapsed_whole, instant, parse_iso8601_to_unix, read_instant, seconds_since,
    unix_time, whole_seconds, Timestamp,
};
use crate::config::BurnRateConfig;
use crate::database::records::{
    copied, ArchiveFacts, ArchiveRecord, Attribution, PeriodTotals, SessionFacts, SessionRecord,
    SessionUpdate, Tokens,
};
use crate::database::session::{
    active_time_fits, added, archive_session, archived_as, burn_mode, burn_mode_of, cost_growth,
    facts, growth, no_attribution, record_after, repeated_cost_adds_nothing, session_deltas,
    should_reset, starts_again, updated_record, Baseline, BurnMode, Deltas,
};
use crate::double::Double;
use crate::stats::session::{SessionStats, StatsFacts};
use crate::text::{
    comes_before, is_before, one_comes_first, opt_str, opt_view, order_carries_over, same,
};
use crate::text_map::TextMap;
use vstd::prelude::*;

verus! {

/// When an update takes place.
#[derive(Debug)]
pub struct Moment {
    /// The time, as it is stored.
    pub now: String,
    /// The day, which names its totals.
    pub today: String,
    /// The month, which names its totals.
    pub month: String,
}

/// The rows that are kept: sessions, ended work periods, and totals by day and month.
#[derive(Debug)]
pub struct Tables {
    pub sessions: TextMap<SessionRecord>,
    pub archive: Vec<ArchiveRecord>,
    pub daily: TextMap<PeriodTotals>,
    pub monthly: TextMap<PeriodTotals>,
}

/// What the tables say.
#[verifier::ext_equal]
pub struct TablesFacts {
    pub sessions: Map<Seq<char>, SessionFacts>,
    pub archive: Seq<ArchiveFacts>,
    pub daily: Map<Seq<char>, PeriodTotals>,
    pub monthly: Map<Seq<char>, PeriodTotals>,
}

/// What a map of records says.
pub open spec fn all_facts(m: Map<Seq<char>, SessionRecord>) -> Map<Seq<char>, SessionFacts> {
    m.map_values(|r: SessionRecord| r@)
}

/// What a list of ended work periods says.
pub open spec fn all_archived(v: Seq<ArchiveRecord>) -> Seq<ArchiveFacts> {
    v.map_values(|r: ArchiveRecord| r@)
}

impl View for Tables {
    type V = TablesFacts;

    open spec fn view(&self) -> TablesFacts {
        TablesFacts {
            sessions: all_facts(self.sessions@),
            archive: all_archived(self.archive@),
            daily: self.daily@,
            monthly: self.monthly@,
        }
    }
}

/// Where the newest work period of a session stands; the last one of those that ended at
/// the same time.
pub open spec fn newest_period(archive: Seq<ArchiveFacts>, id: Seq<char>) -> Option<int>
    decreases archive.len(),
{
    if archive.len() == 0 {
        None
    } else {
        let before = newest_period(archive.drop_last(), id);
        let last = archive.last();
        if last.session_id == id && (match before {
            Some(i) => !comes_before(last.archived_at, archive[i].archived_at),
            None => true,
        }) {
            Some(archive.len() - 1)
        } else {
            before
        }
    }
}

/// The newest work period belongs to the session, and none of the session's is newer.
/// There is one if there is any.
pub proof fn newest_period_is_newest(archive: Seq<ArchiveFacts>, id: Seq<char>)
    ensures
        match newest_period(archive, id) {
            Some(i) => 0 <= i < archive.len() && archive[i].session_id == id && forall|j: int|
                0 <= j < archive.len() && (#[trigger] archive[j]).session_id == id
                    ==> !comes_before(archive[i].archived_at, archive[j].archived_at),
            None => forall|j: int|
                0 <= j < archive.len() ==> (#[trigger] archive[j]).session_id != id,
        },
    decreases archive.len(),
{
    if archive.len() > 0 {
        let rest = archive.drop_last();
        newest_period_is_newest(rest, id);
        let last = archive.last();
        match newest_period(archive, id) {
            Some(i) => {
                assert forall|j: int|
                    0 <= j < archive.len() && (
                    #[trigger] archive[j]).session_id == id implies !comes_before(
                    archive[i].archived_at,
                    archive[j].archived_at,
                ) by {
                    if j < rest.len() {
                        assert(rest[j] == archive[j]);
                    }
                    one_comes_first(archive[i].archived_at, archive[j].archived_at);
                    match newest_period(rest, id) {
                        Some(k) => {
                            assert(rest[k] == archive[k]);
                            if i == archive.len() - 1 && j < rest.len() {
                                if comes_before(last.archived_at, archive[j].archived_at) {
                                    one_comes_first(archive[k].archived_at, last.archived_at);
                                    if archive[k].archived_at != last.archived_at {
                                        order_carries_over(
                                            archive[k].archived_at,
                                            last.archived_at,
                                            archive[j].archived_at,
                                        );
                                    }
                                }
                            }
                        },
                        None => {
                            if j < rest.len() {
                                assert(rest[j].session_id != id);
                            }
                        },
                    }
                }
                if i < rest.len() {
                    assert(rest[i] == archive[i]);
                }
            },
            None => {
                assert forall|j: int| 0 <= j < archive.len() implies (
                #[trigger] archive[j]).session_id != id by {
                    if j < rest.len() {
                        assert(rest[j] == archive[j]);
                    }
                }
            },
        }
    }
}

impl TablesFacts {
    /// What is kept of a session.
    pub open spec fn session(self, id: Seq<char>) -> Option<SessionFacts> {
        if self.sessions.dom().contains(id) {
            Some(self.sessions[id])
        } else {
            None
        }
    }

    /// Whether an update ends the work period of its session.
    pub open spec fn ends_period(self, id: Seq<char>, config: BurnRateConfig, idle: Option<u64>) -> bool {
        self.session(id) is Some && starts_again(config, idle)
    }

    /// The work periods that have ended once an update is under way.
    pub open spec fn periods(
        self,
        id: Seq<char>,
        config: BurnRateConfig,
        now: Seq<char>,
        idle: Option<u64>,
    ) -> Seq<ArchiveFacts> {
        if self.ends_period(id, config, idle) {
            self.archive.push(archived_as(id, self.sessions[id], now))
        } else {
            self.archive
        }
    }

    /// What an update goes on with.
    pub open spec fn live(self, id: Seq<char>, config: BurnRateConfig, idle: Option<u64>) -> Option<
        SessionFacts,
    > {
        if self.ends_period(id, config, idle) {
            None
        } else {
            self.session(id)
        }
    }

    /// What cost and lines are counted from where there is no session to go on with.
    pub open spec fn baseline(
        self,
        id: Seq<char>,
        config: BurnRateConfig,
        now: Seq<char>,
        idle: Option<u64>,
    ) -> Option<Baseline> {
        let periods = self.periods(id, config, now, idle);
        match burn_mode(config.mode@) {
            BurnMode::AutoReset => match newest_period(periods, id) {
                Some(i) => Some(
                    Baseline {
                        cost: periods[i].cost,
                        lines_added: periods[i].lines_added,
                        lines_removed: periods[i].lines_removed,
                    },
                ),
                None => None,
            },
            _ => None,
        }
    }

    /// What an update adds.
    pub open spec fn added_by(
        self,
        id: Seq<char>,
        u: SessionUpdate,
        config: BurnRateConfig,
        now: Seq<char>,
        idle: Option<u64>,
    ) -> Deltas {
        added(u, self.live(id, config, idle), self.baseline(id, config, now, idle))
    }

    /// The totals of a period.
    pub open spec fn totals(m: Map<Seq<char>, PeriodTotals>, period: Seq<char>) -> PeriodTotals {
        if m.dom().contains(period) {
            m[period]
        } else {
            PeriodTotals::none()
        }
    }

    /// Whether what an update adds fits.
    pub open spec fn has_room(
        self,
        id: Seq<char>,
        u: SessionUpdate,
        config: BurnRateConfig,
        at: Moment,
        idle: Option<u64>,
    ) -> bool {
        &&& u.storable()
        &&& active_time_fits(config, self.live(id, config, idle), u.active_time_seconds, idle)
        &&& TablesFacts::totals(self.daily, at.today@).has_room_for(
            self.added_by(id, u, config, at.now@, idle),
        )
        &&& TablesFacts::totals(self.monthly, at.month@).has_room_for(
            self.added_by(id, u, config, at.now@, idle),
        )
    }

    /// The tables after an update.
    pub open spec fn after(
        self,
        id: Seq<char>,
        u: SessionUpdate,
        config: BurnRateConfig,
        at: Moment,
        idle: Option<u64>,
        sessions_today: i64,
        sessions_this_month: i64,
    ) -> TablesFacts {
        let d = self.added_by(id, u, config, at.now@, idle);
        TablesFacts {
            sessions: self.sessions.insert(
                id,
                record_after(self.live(id, config, idle), u, config, at.now@, idle),
            ),
            archive: self.periods(id, config, at.now@, idle),
            daily: self.daily.insert(
                at.today@,
                TablesFacts::totals(self.daily, at.today@).after(d, sessions_today),
            ),
            monthly: self.monthly.insert(
                at.month@,
                TablesFacts::totals(self.monthly, at.month@).after(d, sessions_this_month),
            ),
        }
    }
}

fn newest_period_of(archive: &Vec<ArchiveRecord>, id: &str) -> (r: Option<usize>)
    ensures
        match r {
            Some(i) => i < archive@.len() && newest_period(all_archived(archive@), id@) == Some(
                i as int,
            ),
            None => newest_period(all_archived(archive@), id@) is None,
        },
{
    let n: usize = archive.len();
    let mut best: Option<usize> = None;
    let mut i: usize = 0;
    let ghost all = all_archived(archive@);
    proof {
        assert(all.take(0) =~= Seq::<ArchiveFacts>::empty());
    }
    while i < n
        invariant
            n == archive@.len(),
            i <= n,
            all == all_archived(archive@),
            match best {
                Some(b) => b < i && newest_period(all.take(i as int), id@) == Some(b as int),
                None => newest_period(all.take(i as int), id@) is None,
            },
        decreases n - i,
    {
        proof {
            assert(all.take(i + 1).drop_last() =~= all.take(i as int));
            assert(all.take(i + 1).last() == archive@[i as int]@);
            if best is Some {
                assert(all.take(i + 1)[best->Some_0 as int] == archive@[best->Some_0 as int]@);
            }
        }
        if same(archive[i].session_id.as_str(), id) {
            let newer = match best {
                Some(b) => !is_before(archive[i].archived_at.as_str(), archive[b].archived_at.as_str()),
                None => true,
            };
            if newer {
                best = Some(i);
            }
        }
        i += 1;
    }
    proof {
        assert(all.take(n as int) =~= all);
    }
    best
}

fn period_totals(m: &TextMap<PeriodTotals>, period: &str) -> (r: PeriodTotals)
    ensures
        r == TablesFacts::totals(m@, period@),
{
    match m.get(period) {
        Some(t) => *t,
        None => PeriodTotals::empty(),
    }
}

impl Tables {
    pub fn new() -> (r: Tables)
        ensures
            r@.sessions == Map::<Seq<char>, SessionFacts>::empty(),
            r@.archive == Seq::<ArchiveFacts>::empty(),
            r@.daily == Map::<Seq<char>, PeriodTotals>::empty(),
            r@.monthly == Map::<Seq<char>, PeriodTotals>::empty(),
    {
        let r = Tables {
            sessions: TextMap::new(),
            archive: Vec::new(),
            daily: TextMap::new(),
            monthly: TextMap::new(),
        };
        proof {
            assert(all_facts(r.sessions@) =~= Map::<Seq<char>, SessionFacts>::empty());
            assert(all_archived(r.archive@) =~= Seq::<ArchiveFacts>::empty());
        }
        r
    }

    fn live(&self, id: &str, config: &BurnRateConfig, idle: Option<u64>) -> (r: Option<
        &SessionRecord,
    >)
        ensures
            facts(r) == self@.live(id@, *config, idle),
    {
        match self.sessions.get(id) {
            Some(s) => {
                if should_reset(config, idle) {
                    None
                } else {
                    Some(s)
                }
            },
            None => None,
        }
    }

    /// The work period that an update ends, if it ends one.
    fn ended_period(&self, id: &str, config: &BurnRateConfig, now: &str, idle: Option<u64>) -> (r:
        Option<ArchiveRecord>)
        ensures
            match r {
                Some(a) => self@.ends_period(id@, *config, idle) && a@ == archived_as(
                    id@,
                    self@.sessions[id@],
                    now@,
                ),
                None => !self@.ends_period(id@, *config, idle),
            },
    {
        match self.sessions.get(id) {
            Some(s) => {
                if should_reset(config, idle) {
                    Some(archive_session(id, s, now))
                } else {
                    None
                }
            },
            None => None,
        }
    }

    /// What cost and lines are counted from where there is no session to go on with. The
    /// work period that the update ends is the newest, whatever the clock says, unless one
    /// of the others ended later.
    fn baseline(&self, id: &str, config: &BurnRateConfig, now: &str, idle: Option<u64>) -> (r:
        Option<Baseline>)
        ensures
            r == self@.baseline(id@, *config, now@, idle),
    {
        match burn_mode_of(config.mode.as_str()) {
            BurnMode::AutoReset => {
                let newest = newest_period_of(&self.archive, id);
                let ended = self.ended_period(id, config, now, idle);
                let ghost periods = self@.periods(id@, *config, now@, idle);
                match ended {
                    Some(a) => {
                        proof {
                            assert(periods.drop_last() =~= self@.archive);
                        }
                        let older = match newest {
                            Some(i) => is_before(now, self.archive[i].archived_at.as_str()),
                            None => false,
                        };
                        if !older {
                            return Some(
                                Baseline {
                                    cost: a.cost,
                                    lines_added: a.lines_added,
                                    lines_removed: a.lines_removed,
                                },
                            );
                        }
                    },
                    None => {},
                }
                match newest {
                    Some(i) => {
                        proof {
                            assert(periods[i as int] == self.archive@[i as int]@);
                        }
                        Some(
                            Baseline {
                                cost: self.archive[i].cost,
                                lines_added: self.archive[i].lines_added,
                                lines_removed: self.archive[i].lines_removed,
                            },
                        )
                    },
                    None => None,
                }
            },
            _ => None,
        }
    }

    /// What an update adds to the totals of its day and month. `idle` is the time since
    /// the session's last activity, absent where that is not known.
    pub fn deltas(
        &self,
        id: &str,
        update: &SessionUpdate,
        config: &BurnRateConfig,
        now: &str,
        idle: Option<u64>,
    ) -> (r: Deltas)
        requires
            update.storable(),
        ensures
            r == self@.added_by(id@, *update, *config, now@, idle),
    {
        session_deltas(
            update,
            self.live(id, config, idle),
            self.baseline(id, config, now, idle),
        )
    }

    /// Take in an update of a session that was idle for so long, and give back the totals
    /// of the day and of the session. The session's counters become those of the update,
    /// and only what is new about them is added to the totals. A long break may end the
    /// session's work period first.
    pub fn record(
        &mut self,
        id: &str,
        update: SessionUpdate,
        config: &BurnRateConfig,
        at: &Moment,
        idle: Option<u64>,
        sessions_today: i64,
        sessions_this_month: i64,
    ) -> (r: (Double, Double))
        requires
            old(self)@.has_room(id@, update, *config, *at, idle),
        ensures
            final(self)@ == old(self)@.after(
                id@,
                update,
                *config,
                *at,
                idle,
                sessions_today,
                sessions_this_month,
            ),
            r.0 == final(self)@.daily[at.today@].total_cost,
            r.1 == update.cost,
    {
        let ghost before = self@;
        let d = self.deltas(id, &update, config, at.now.as_str(), idle);
        let ended = self.ended_period(id, config, at.now.as_str(), idle);
        let cost = update.cost;
        let next = updated_record(
            self.live(id, config, idle),
            update,
            config,
            at.now.as_str(),
            idle,
        );
        let day = period_totals(&self.daily, at.today.as_str()).add(&d, sessions_today);
        let month = period_totals(&self.monthly, at.month.as_str()).add(&d, sessions_this_month);
        let ghost sessions = self.sessions@;
        let ghost archive = self.archive@;
        self.sessions.insert(id.to_owned(), next);
        match ended {
            Some(a) => {
                self.archive.push(a);
            },
            None => {},
        }
        self.daily.insert(at.today.clone(), day);
        self.monthly.insert(at.month.clone(), month);
        proof {
            assert(all_facts(self.sessions@) =~= all_facts(sessions).insert(id@, next@));
            assert(self@.archive =~= before.periods(id@, *config, at.now@, idle));
        }
        (day.total_cost, cost)
    }

    /// Whether the rows hold what an update makes of them.
    pub fn can_record(
        &self,
        id: &str,
        update: &SessionUpdate,
        config: &BurnRateConfig,
        at: &Moment,
        idle: Option<u64>,
    ) -> (r: bool)
        ensures
            r == self@.has_room(id@, *update, *config, *at, idle),
    {
        if update.lines_added > 9_223_372_036_854_775_807 || update.lines_removed
            > 9_223_372_036_854_775_807 {
            return false;
        }
        match update.active_time_seconds {
            Some(t) => {
                if t > 9_223_372_036_854_775_807 {
                    return false;
                }
            },
            None => {},
        }
        if !can_store_active_time(config, self.live(id, config, idle), idle) {
            return false;
        }
        let d = self.deltas(id, update, config, at.now.as_str(), idle);
        period_totals(&self.daily, at.today.as_str()).can_add(&d) && period_totals(
            &self.monthly,
            at.month.as_str(),
        ).can_add(&d)
    }

    /// How long a session was idle; absent where its last activity, or the time, is not
    /// known.
    pub fn idle_time(&self, id: &str, now: Option<u64>) -> (r: Option<u64>)
        ensures
            r == self@.idle(id@, now),
    {
        let last = match self.sessions.get(id) {
            Some(s) => match &s.last_activity {
                Some(t) => parse_iso8601_to_unix(t.as_str()),
                None => None,
            },
            None => None,
        };
        duration_since(last, now)
    }

    /// Take in an update of a session at the given time, and give back the totals of the
    /// day and of the session. Where a row cannot hold what the update makes of it,
    /// nothing changes and nothing is given back.
    pub fn update_session(
        &mut self,
        id: &str,
        update: SessionUpdate,
        config: &BurnRateConfig,
        at: &Moment,
        now: Option<u64>,
        sessions_today: i64,
        sessions_this_month: i64,
    ) -> (r: Option<(Double, Double)>)
        ensures
            r is Some <==> old(self)@.has_room(
                id@,
                update,
                *config,
                *at,
                old(self)@.idle(id@, now),
            ),
            r is Some ==> final(self)@ == old(self)@.after(
                id@,
                update,
                *config,
                *at,
                old(self)@.idle(id@, now),
                sessions_today,
                sessions_this_month,
            ),
            r is None ==> final(self)@ == old(self)@,
            r matches Some(t) ==> t.0 == final(self)@.daily[at.today@].total_cost && t.1
                == update.cost,
    {
        let idle = self.idle_time(id, now);
        if self.can_record(id, &update, config, at, idle) {
            Some(self.record(id, update, config, at, idle, sessions_today, sessions_this_month))
        } else {
            None
        }
    }

    /// Put a record in the place of the one that a session has.
    fn replace(&mut self, id: &str, record: SessionRecord)
        ensures
            final(self)@ == (TablesFacts {
                sessions: old(self)@.sessions.insert(id@, record@),
                ..old(self)@
            }),
    {
        let ghost sessions = self.sessions@;
        self.sessions.insert(id.to_owned(), record);
        proof {
            assert(all_facts(self.sessions@) =~= all_facts(sessions).insert(id@, record@));
        }
    }

    /// Note which version ran a session, and who made its requests. The numbers are those
    /// of the whole session, in place of the ones before. A session without a record gets
    /// none.
    pub fn update_session_agents(&mut self, id: &str, version: Option<&str>, summary: &AgentsSummary)
        requires
            countable(*summary),
        ensures
            final(self)@ == old(self)@.with_agents(id@, opt_str(version), *summary),
    {
        let found = match self.sessions.get(id) {
            Some(s) => {
                let mut next = s.duplicate();
                match version {
                    Some(v) => {
                        next.version = Some(v.to_owned());
                    },
                    None => {},
                }
                next.attribution = Attribution {
                    agent_count: summary.agent_files as i64,
                    agent_requests: summary.agents.requests as i64,
                    agent_input_tokens: summary.agents.input_traffic() as i64,
                    agent_output_tokens: summary.agents.output_tokens as i64,
                    main_requests: summary.main.requests as i64,
                    main_input_tokens: summary.main.input_traffic() as i64,
                    main_output_tokens: summary.main.output_tokens as i64,
                };
                Some(next)
            },
            None => None,
        };
        match found {
            Some(next) => self.replace(id, next),
            None => {},
        }
    }

    /// Note how many tokens a session has used, if that is more than was seen before.
    pub fn update_max_tokens_observed(&mut self, id: &str, current_tokens: u32)
        ensures
            final(self)@ == old(self)@.with_max_tokens(
                id@,
                most_seen(old(self)@.session(id@), current_tokens),
            ),
    {
        let found = match self.sessions.get(id) {
            Some(s) => {
                let mut next = s.duplicate();
                let more = match s.max_tokens_observed {
                    Some(m) => m < current_tokens as i64,
                    None => true,
                };
                if more {
                    next.max_tokens_observed = Some(current_tokens as i64);
                }
                Some(next)
            },
            None => None,
        };
        match found {
            Some(next) => self.replace(id, next),
            None => {},
        }
    }

    /// The largest number of tokens that a session has used.
    pub fn get_session_max_tokens(&self, id: &str) -> (r: Option<usize>)
        ensures
            r == match self@.session(id@) {
                Some(s) => match s.max_tokens_observed {
                    Some(m) => Some(m as usize),
                    None => None,
                },
                None => None,
            },
    {
        match self.sessions.get(id) {
            Some(s) => match s.max_tokens_observed {
                Some(m) => Some(#[verifier::truncate] (m as usize)),
                None => None,
            },
            None => None,
        }
    }

    /// Forget how many tokens a session has used, as after a compaction. A session without
    /// a record gets none.
    pub fn reset_session_max_tokens(&mut self, id: &str)
        ensures
            final(self)@ == old(self)@.with_max_tokens(id@, Some(0)),
    {
        let found = match self.sessions.get(id) {
            Some(s) => {
                let mut next = s.duplicate();
                next.max_tokens_observed = Some(0);
                Some(next)
            },
            None => None,
        };
        match found {
            Some(next) => self.replace(id, next),
            None => {},
        }
    }

    /// Forget how many tokens any session has used, and say how many sessions there are.
    pub fn reset_all_sessions_max_tokens(&mut self) -> (r: usize)
        ensures
            final(self)@ == (TablesFacts {
                sessions: old(self)@.sessions.map_values(
                    |s: SessionFacts| SessionFacts { max_tokens_observed: Some(0), ..s },
                ),
                ..old(self)@
            }),
            r == old(self)@.sessions.dom().len(),
    {
        let ghost before = self.sessions@;
        let n: usize = self.sessions.len();
        let mut next: TextMap<SessionRecord> = TextMap::new();
        let ghost names = self.sessions.names();
        let mut i: usize = 0;
        while i < n
            invariant
                n == names.len(),
                names == self.sessions.names(),
                names.no_duplicates(),
                before == self.sessions@,
                i <= n,
                forall|k: Seq<char>| #[trigger]
                    next@.dom().contains(k) <==> names.take(i as int).contains(k),
                forall|k: Seq<char>| #[trigger]
                    next@.dom().contains(k) ==> next@[k]@ == (SessionFacts {
                        max_tokens_observed: Some(0),
                        ..before[k]@
                    }),
            decreases n - i,
        {
            let name = self.sessions.name_at(i).to_owned();
            let mut record = self.sessions.value_at(i).duplicate();
            record.max_tokens_observed = Some(0);
            proof {
                assert(names.take(i + 1) =~= names.take(i as int).push(names[i as int]));
                assert forall|k: Seq<char>| names.take(i + 1).contains(k) <==> (names.take(
                    i as int,
                ).contains(k) || k == names[i as int]) by {
                    if k == names[i as int] {
                        assert(names.take(i + 1)[i as int] == k);
                    }
                    if names.take(i as int).contains(k) {
                        let j = choose|j: int| 0 <= j < i && names.take(i as int)[j] == k;
                        assert(names.take(i + 1)[j] == k);
                    }
                }
            }
            next.insert(name, record);
            i += 1;
        }
        proof {
            assert(names.take(n as int) =~= names);
            let to = |s: SessionFacts| SessionFacts { max_tokens_observed: Some(0), ..s };
            assert forall|k: Seq<char>| next@.dom().contains(k) <==> before.dom().contains(k) by {
                assert(names.contains(k) <==> before.dom().contains(k));
            }
            assert(all_facts(next@) =~= all_facts(before).map_values(to));
            assert(all_facts(before).dom() =~= before.dom());
        }
        self.sessions = next;
        n
    }

    /// When a session started.
    pub fn get_session_start_time(&self, id: &str) -> (r: Option<String>)
        ensures
            opt_view(r) == match self@.session(id@) {
                Some(s) => Some(s.start_time),
                None => None,
            },
    {
        match self.sessions.get(id) {
            Some(s) => Some(s.start_time.clone()),
            None => None,
        }
    }

    /// The active time of a session, and its last activity.
    pub fn get_session_active_time(&self, id: &str) -> (r: Option<(Option<u64>, Option<String>)>)
        ensures
            r is Some <==> self@.session(id@) is Some,
            r matches Some(t) ==> t.0 == match self@.sessions[id@].active_time_seconds {
                Some(n) => Some(n as u64),
                None => None,
            } && opt_view(t.1) == self@.sessions[id@].last_activity,
    {
        match self.sessions.get(id) {
            Some(s) => {
                let active = match s.active_time_seconds {
                    Some(n) => Some(#[verifier::truncate] (n as u64)),
                    None => None,
                };
                Some((active, copied(&s.last_activity)))
            },
            None => None,
        }
    }

    /// The tokens of a session by kind: input, output, cache read, cache creation. Absent
    /// where one of them is negative.
    pub fn get_session_token_breakdown(&self, id: &str) -> (r: Option<(u32, u32, u32, u32)>)
        ensures
            r == match self@.session(id@) {
                Some(s) => if s.tokens.input < 0 || s.tokens.output < 0 || s.tokens.cache_read < 0
                    || s.tokens.cache_creation < 0 {
                    None
                } else {
                    Some(
                        (
                            s.tokens.input as u32,
                            s.tokens.output as u32,
                            s.tokens.cache_read as u32,
                            s.tokens.cache_creation as u32,
                        ),
                    )
                },
                None => None,
            },
    {
        match self.sessions.get(id) {
            Some(s) => {
                let t = s.tokens;
                if t.input < 0 || t.output < 0 || t.cache_read < 0 || t.cache_creation < 0 {
                    return None;
                }
                Some(
                    (
                        #[verifier::truncate] (t.input as u32),
                        #[verifier::truncate] (t.output as u32),
                        #[verifier::truncate] (t.cache_read as u32),
                        #[verifier::truncate] (t.cache_creation as u32),
                    ),
                )
            },
            None => None,
        }
    }

    /// Seconds from the start of a session to `now`, rounded towards zero; absent where the
    /// start cannot be read.
    pub fn get_session_duration(&self, id: &str, now: Timestamp) -> (r: Option<u64>)
        ensures
            r == match self@.session(id@) {
                Some(s) => match instant(s.start_time) {
                    Some(start) => Some(whole_seconds(start, now) as u64),
                    None => None,
                },
                None => None,
            },
    {
        match self.sessions.get(id) {
            Some(s) => match read_instant(s.start_time.as_str()) {
                Some(start) => Some(#[verifier::truncate] (elapsed_whole(start, now) as u64)),
                None => None,
            },
            None => None,
        }
    }

    /// Take over sessions that were kept elsewhere. A session that has a record keeps it.
    pub fn import_sessions(&mut self, sessions: &TextMap<SessionStats>)
        requires
            forall|k: Seq<char>| #[trigger]
                sessions@.dom().contains(k) ==> importable(sessions@[k]@),
        ensures
            final(self)@ == (TablesFacts {
                sessions: imported_all(sessions@).union_prefer_right(old(self)@.sessions),
                ..old(self)@
            }),
    {
        let ghost before = self@;
        let n: usize = sessions.len();
        let ghost names = sessions.names();
        let mut i: usize = 0;
        while i < n
            invariant
                n == names.len(),
                names == sessions.names(),
                names.no_duplicates(),
                i <= n,
                forall|k: Seq<char>| #[trigger] names.contains(k) <==> sessions@.dom().contains(k),
                forall|k: Seq<char>| #[trigger]
                    sessions@.dom().contains(k) ==> importable(sessions@[k]@),
                self@.archive == before.archive,
                self@.daily == before.daily,
                self@.monthly == before.monthly,
                forall|k: Seq<char>| #[trigger]
                    self@.sessions.dom().contains(k) <==> before.sessions.dom().contains(k)
                        || names.take(i as int).contains(k),
                forall|k: Seq<char>| #[trigger]
                    before.sessions.dom().contains(k) ==> self@.sessions[k] == before.sessions[k],
                forall|k: Seq<char>| #[trigger]
                    self@.sessions.dom().contains(k) && !before.sessions.dom().contains(k)
                        ==> self@.sessions[k] == imported(sessions@[k]@),
            decreases n - i,
        {
            let name = sessions.name_at(i);
            proof {
                assert(names.take(i + 1) =~= names.take(i as int).push(names[i as int]));
                assert forall|k: Seq<char>| names.take(i + 1).contains(k) <==> (names.take(
                    i as int,
                ).contains(k) || k == names[i as int]) by {
                    if k == names[i as int] {
                        assert(names.take(i + 1)[i as int] == k);
                    }
                    if names.take(i as int).contains(k) {
                        let j = choose|j: int| 0 <= j < i && names.take(i as int)[j] == k;
                        assert(names.take(i + 1)[j] == k);
                    }
                }
                assert(all_facts(self.sessions@).dom() =~= self.sessions@.dom());
                assert(!names.take(i as int).contains(names[i as int])) by {
                    if names.take(i as int).contains(names[i as int]) {
                        let j = choose|j: int|
                            0 <= j < i && names.take(i as int)[j] == names[i as int];
                        assert(names[j] == names[i as int]);
                    }
                }
            }
            if !self.sessions.contains_key(name) {
                let s = sessions.value_at(i);
                let record = import_session(s);
                self.replace(name, record);
            }
            i += 1;
        }
        proof {
            assert(names.take(n as int) =~= names);
            let after = imported_all(sessions@).union_prefer_right(before.sessions);
            assert forall|k: Seq<char>| self@.sessions.dom().contains(k) <==> #[trigger]
                after.dom().contains(k) by {
                assert(names.contains(k) <==> sessions@.dom().contains(k));
            }
            assert(self@.sessions =~= after);
        }
    }
}

impl TablesFacts {
    /// How long a session was idle.
    pub open spec fn idle(self, id: Seq<char>, now: Option<u64>) -> Option<u64> {
        seconds_since(
            match self.session(id) {
                Some(s) => match s.last_activity {
                    Some(t) => unix_time(t),
                    None => None,
                },
                None => None,
            },
            now,
        )
    }

    /// The tables with another attribution for a session, if it has a record.
    pub open spec fn with_agents(
        self,
        id: Seq<char>,
        version: Option<Seq<char>>,
        summary: AgentsSummary,
    ) -> TablesFacts {
        match self.session(id) {
            Some(s) => (TablesFacts {
                sessions: self.sessions.insert(
                    id,
                    SessionFacts {
                        version: if version is Some {
                            version
                        } else {
                            s.version
                        },
                        attribution: Attribution {
                            agent_count: summary.agent_files as i64,
                            agent_requests: summary.agents.requests as i64,
                            agent_input_tokens: summary.agents.traffic() as i64,
                            agent_output_tokens: summary.agents.output_tokens as i64,
                            main_requests: summary.main.requests as i64,
                            main_input_tokens: summary.main.traffic() as i64,
                            main_output_tokens: summary.main.output_tokens as i64,
                        },
                        ..s
                    },
                ),
                ..self
            }),
            None => self,
        }
    }

    /// The tables with another number of tokens for a session, if it has a record.
    pub open spec fn with_max_tokens(self, id: Seq<char>, most: Option<i64>) -> TablesFacts {
        match self.session(id) {
            Some(s) => (TablesFacts {
                sessions: self.sessions.insert(
                    id,
                    SessionFacts { max_tokens_observed: most, ..s },
                ),
                ..self
            }),
            None => self,
        }
    }
}

/// The largest number of tokens, once so many are seen.
pub open spec fn most_seen(session: Option<SessionFacts>, tokens: u32) -> Option<i64> {
    match session {
        Some(s) => match s.max_tokens_observed {
            Some(m) => if m < tokens {
                Some(tokens as i64)
            } else {
                Some(m)
            },
            None => Some(tokens as i64),
        },
        None => None,
    }
}

/// Whether the numbers of an attribution can be stored.
pub open spec fn countable(s: AgentsSummary) -> bool {
    &&& s.agent_files <= i64::MAX
    &&& s.agents.requests <= i64::MAX
    &&& s.agents.traffic() <= i64::MAX
    &&& s.agents.output_tokens <= i64::MAX
    &&& s.main.requests <= i64::MAX
    &&& s.main.traffic() <= i64::MAX
    &&& s.main.output_tokens <= i64::MAX
}

/// Whether the counters of a session can be stored.
pub open spec fn importable(s: StatsFacts) -> bool {
    &&& s.lines_added <= i64::MAX
    &&& s.lines_removed <= i64::MAX
    &&& s.active_time_seconds matches Some(t) ==> t <= i64::MAX
}

/// The record of a session that was kept elsewhere.
pub open spec fn imported(s: StatsFacts) -> SessionFacts {
    SessionFacts {
        start_time: match s.start_time {
            Some(t) => t,
            None => Seq::empty(),
        },
        last_updated: s.last_updated,
        cost: s.cost,
        lines_added: s.lines_added as i64,
        lines_removed: s.lines_removed as i64,
        model_name: None,
        workspace_dir: None,
        device_id: None,
        tokens: Tokens { input: 0, output: 0, cache_read: 0, cache_creation: 0 },
        max_tokens_observed: Some(0),
        active_time_seconds: match s.active_time_seconds {
            Some(t) => Some(t as i64),
            None => None,
        },
        last_activity: s.last_activity,
        version: None,
        attribution: no_attribution(),
    }
}

/// The records of sessions that were kept elsewhere.
pub open spec fn imported_all(sessions: Map<Seq<char>, SessionStats>) -> Map<
    Seq<char>,
    SessionFacts,
> {
    sessions.map_values(|s: SessionStats| imported(s@))
}

fn import_session(s: &SessionStats) -> (r: SessionRecord)
    requires
        importable(s@),
    ensures
        r@ == imported(s@),
{
    let r = SessionRecord {
        start_time: match &s.start_time {
            Some(t) => t.clone(),
            None => String::new(),
        },
        last_updated: s.last_updated.clone(),
        cost: s.cost,
        lines_added: s.lines_added as i64,
        lines_removed: s.lines_removed as i64,
        model_name: None,
        workspace_dir: None,
        device_id: None,
        tokens: Tokens { input: 0, output: 0, cache_read: 0, cache_creation: 0 },
        max_tokens_observed: Some(0),
        active_time_seconds: match s.active_time_seconds {
            Some(t) => Some(t as i64),
            None => None,
        },
        last_activity: copied(&s.last_activity),
        version: None,
        attribution: Attribution {
            agent_count: 0,
            agent_requests: 0,
            agent_input_tokens: 0,
            agent_output_tokens: 0,
            main_requests: 0,
            main_input_tokens: 0,
            main_output_tokens: 0,
        },
    };
    proof {
        assert(r@.start_time =~= imported(s@).start_time);
    }
    r
}

/// Whether the active time that is counted can be stored.
fn can_store_active_time(
    config: &BurnRateConfig,
    old: Option<&SessionRecord>,
    idle: Option<u64>,
) -> (r: bool)
    ensures
        forall|reported: Option<u64>|
            (reported matches Some(t) ==> t <= i64::MAX) ==> r == #[trigger] active_time_fits(
                *config,
                facts(old),
                reported,
                idle,
            ),
{
    match burn_mode_of(config.mode.as_str()) {
        BurnMode::ActiveTime => match (old, idle) {
            (Some(o), Some(t)) => match o.active_time_seconds {
                Some(before) => {
                    let short = t < config.inactivity_threshold_minutes as u64 * 60;
                    !short || o.last_activity.is_none() || before as i128 + t as i128
                        <= 9_223_372_036_854_775_807
                },
                None => true,
            },
            _ => true,
        },
        _ => true,
    }
}

// ---------------------------------------------------------------------------
// Laws
// ---------------------------------------------------------------------------

/// A break that ends a session's work period counts nothing twice: cost and lines are
/// counted from where the period ended, as if the session had gone on. This holds as
/// long as no earlier period of the session is dated after now.
pub proof fn a_break_counts_nothing_twice(
    t: TablesFacts,
    id: Seq<char>,
    u: SessionUpdate,
    config: BurnRateConfig,
    now: Seq<char>,
    idle: Option<u64>,
)
    requires
        t.ends_period(id, config, idle),
        forall|j: int|
            0 <= j < t.archive.len() && (#[trigger] t.archive[j]).session_id == id
                ==> !comes_before(now, t.archive[j].archived_at),
    ensures
        ({
            let d = t.added_by(id, u, config, now, idle);
            let old = t.sessions[id];
            &&& d.cost == cost_growth(u.cost, old.cost)
            &&& d.lines_added == growth(u.lines_added as int, old.lines_added as int)
            &&& d.lines_removed == growth(u.lines_removed as int, old.lines_removed as int)
        }),
{
    let periods = t.periods(id, config, now, idle);
    assert(periods.drop_last() =~= t.archive);
    newest_period_is_newest(t.archive, id);
    match newest_period(t.archive, id) {
        Some(i) => {
            assert(periods[i] == t.archive[i]);
        },
        None => {},
    }
    assert(newest_period(periods, id) == Some(periods.len() - 1));
}

/// A break that ends a session's work period keeps it: the archive holds what the session
/// was, and the session starts anew.
pub proof fn a_break_keeps_the_period(
    t: TablesFacts,
    id: Seq<char>,
    u: SessionUpdate,
    config: BurnRateConfig,
    at: Moment,
    idle: Option<u64>,
    today: i64,
    month: i64,
)
    requires
        t.ends_period(id, config, idle),
    ensures
        ({
            let v = t.after(id, u, config, at, idle, today, month);
            &&& v.archive == t.archive.push(archived_as(id, t.sessions[id], at.now@))
            &&& v.sessions[id].start_time == at.now@
        }),
{
}

/// A session that goes on keeps its start, and its tokens never fall.
pub proof fn a_session_keeps_its_start(
    t: TablesFacts,
    id: Seq<char>,
    u: SessionUpdate,
    config: BurnRateConfig,
    at: Moment,
    idle: Option<u64>,
    today: i64,
    month: i64,
)
    requires
        t.session(id) is Some,
        !t.ends_period(id, config, idle),
    ensures
        ({
            let v = t.after(id, u, config, at, idle, today, month);
            let old = t.sessions[id];
            let new = v.sessions[id];
            &&& v.archive == t.archive
            &&& new.start_time == old.start_time
            &&& new.tokens.input >= old.tokens.input
            &&& new.tokens.output >= old.tokens.output
            &&& new.tokens.cache_read >= old.tokens.cache_read
            &&& new.tokens.cache_creation >= old.tokens.cache_creation
            &&& old.max_tokens_observed matches Some(m) ==> (m >= 0
                ==> new.max_tokens_observed is Some && new.max_tokens_observed->Some_0 >= m)
        }),
{
}

/// An update that repeats what a session said last adds nothing to the totals, as long as
/// the session goes on.
pub proof fn repeated_update_adds_nothing(
    t: TablesFacts,
    id: Seq<char>,
    u: SessionUpdate,
    config: BurnRateConfig,
    at: Moment,
    idle: Option<u64>,
    again: Option<u64>,
    later: Seq<char>,
    today: i64,
    month: i64,
)
    requires
        u.storable(),
        u.cost.is_finite(),
        !starts_again(config, again),
    ensures
        ({
            let v = t.after(id, u, config, at, idle, today, month);
            let d = v.added_by(id, u, config, later, again);
            &&& d.cost == Double::zero()
            &&& d.lines_added == 0
            &&& d.lines_removed == 0
            &&& d.input == 0
            &&& d.output == 0
            &&& d.cache_read == 0
            &&& d.cache_creation == 0
        }),
{
    let v = t.after(id, u, config, at, idle, today, month);
    assert(v.live(id, config, again) == Some(v.sessions[id]));
    repeated_cost_adds_nothing(u.cost);
}

/// An update leaves other sessions, other days and other months as they are.
pub proof fn others_stay(
    t: TablesFacts,
    id: Seq<char>,
    u: SessionUpdate,
    config: BurnRateConfig,
    at: Moment,
    idle: Option<u64>,
    today: i64,
    month: i64,
    other: Seq<char>,
)
    ensures
        ({
            let v = t.after(id, u, config, at, idle, today, month);
            &&& other != id ==> v.session(other) == t.session(other)
            &&& other != at.today@ ==> TablesFacts::totals(v.daily, other) == TablesFacts::totals(
                t.daily,
                other,
            )
            &&& other != at.month@ ==> TablesFacts::totals(v.monthly, other)
                == TablesFacts::totals(t.monthly, other)
        }),
{
}

} // verus!
