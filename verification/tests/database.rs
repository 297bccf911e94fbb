use statusline::agents::{AgentsSummary, TranscriptTotals};
use statusline::clock::{parse_iso8601_to_unix, Timestamp};
use statusline::config::BurnRateConfig;
use statusline::database::maintenance::{
    is_vacuum_overdue, maintenance_result, plan_maintenance, prune_cutoffs, should_vacuum,
    MaintenanceResult, RetentionConfig,
};
use statusline::database::opening::{plan_open, OpenPlan};
use statusline::database::records::{SessionUpdate, TokenBreakdown};
use statusline::database::session::clamp_reset_delta;
use statusline::database::tables::{Moment, Tables};
use statusline::double::Double;
use statusline::stats::SessionStats;
use statusline::text_map::TextMap;

fn usd(x: f64) -> Double {
    Double { bits: x.to_bits() }
}

fn update(cost: f64, added: u64, removed: u64) -> SessionUpdate {
    SessionUpdate {
        cost: usd(cost),
        lines_added: added,
        lines_removed: removed,
        model_name: None,
        workspace_dir: None,
        device_id: None,
        token_breakdown: None,
        max_tokens_observed: None,
        active_time_seconds: None,
        last_activity: None,
    }
}

fn config(mode: &str) -> BurnRateConfig {
    BurnRateConfig {
        mode: mode.to_string(),
        inactivity_threshold_minutes: 30,
        min_duration_seconds: 60,
    }
}

const START: u64 = 1_756_116_000; // 2025-08-25T10:00:00Z

fn stamp(seconds: u64) -> String {
    chrono::DateTime::from_timestamp(seconds as i64, 0).unwrap().to_rfc3339()
}

fn at(seconds: u64) -> Moment {
    let text = stamp(seconds);
    Moment { today: text[..10].to_string(), month: text[..7].to_string(), now: text }
}

/// Tables that are updated as time goes on.
struct Db {
    tables: Tables,
    config: BurnRateConfig,
    now: u64,
}

impl Db {
    fn new(mode: &str) -> Db {
        Db { tables: Tables::new(), config: config(mode), now: START }
    }

    fn update_session(&mut self, id: &str, u: SessionUpdate) -> (Double, Double) {
        let n = self.tables.sessions.len() as i64;
        self.tables
            .update_session(id, u, &self.config, &at(self.now), Some(self.now), n, n)
            .unwrap()
    }

    fn day(&self) -> statusline::database::records::PeriodTotals {
        *self.tables.daily.get(&at(self.now).today).unwrap()
    }
}

#[test]
fn test_session_update() {
    let mut db = Db::new("wall_clock");
    let (day_total, session_total) = db.update_session("test-session", update(10.0, 100, 50));
    assert_eq!(day_total, usd(10.0));
    assert_eq!(session_total, usd(10.0));
    let (day_total, session_total) = db.update_session("test-session", update(5.0, 50, 25));
    assert_eq!(day_total, usd(10.0), "Day total must not decrease on a downward correction");
    assert_eq!(session_total, usd(5.0), "Session total should be replaced, not accumulated");
}

#[test]
fn test_session_update_delta_calculation() {
    let mut db = Db::new("wall_clock");
    let (day_total, session_total) = db.update_session("session1", update(10.0, 100, 50));
    assert_eq!(session_total, usd(10.0));
    assert_eq!(day_total, usd(10.0));
    let (day_total, session_total) = db.update_session("session2", update(20.0, 200, 100));
    assert_eq!(session_total, usd(20.0));
    assert_eq!(day_total, usd(30.0));
    let (day_total, session_total) = db.update_session("session1", update(8.0, 80, 40));
    assert_eq!(session_total, usd(8.0));
    assert_eq!(day_total, usd(30.0));
    let (day_total, session_total) = db.update_session("session1", update(15.0, 150, 75));
    assert_eq!(session_total, usd(15.0));
    assert_eq!(day_total, usd(37.0));
    let (day_total, session_total) = db.update_session("session2", update(0.0, 0, 0));
    assert_eq!(session_total, usd(0.0));
    assert_eq!(day_total, usd(37.0));
}

#[test]
fn test_aggregates() {
    let mut db = Db::new("wall_clock");
    db.update_session("session-1", update(10.0, 100, 50));
    db.update_session("session-2", update(20.0, 200, 100));
    db.update_session("session-3", update(30.0, 300, 150));
    assert_eq!(db.day().total_cost, usd(60.0));
    let month = *db.tables.monthly.get(&at(db.now).month).unwrap();
    assert_eq!(month.total_cost, usd(60.0));
    assert_eq!(db.day().total_lines_added, 600);
    assert_eq!(month.total_lines_removed, 300);
}

#[test]
fn test_session_start_time_preserved_on_update() {
    let mut db = Db::new("wall_clock");
    let id = "start-time-test-session";
    db.update_session(id, update(1.0, 10, 5));
    let start_time_1 = db.tables.get_session_start_time(id).unwrap();
    db.now += 1;
    db.update_session(id, update(5.0, 50, 25));
    let start_time_2 = db.tables.get_session_start_time(id).unwrap();
    assert_eq!(start_time_1, start_time_2, "start_time should be preserved on session update");
    let row = db.tables.sessions.get(id).unwrap();
    assert_ne!(start_time_1, row.last_updated);
    assert_eq!(row.cost, usd(5.0), "cost should reflect latest update");
}

#[test]
fn test_active_time_tracking_storage() {
    let mut db = Db::new("wall_clock");
    let mut u = update(1.0, 10, 5);
    u.active_time_seconds = Some(0);
    u.last_activity = Some(stamp(db.now));
    db.update_session("test-session", u);
    let (active_time, last_activity) = db.tables.get_session_active_time("test-session").unwrap();
    assert_eq!(active_time, Some(0), "Initial active_time should be 0");
    let stored = parse_iso8601_to_unix(&last_activity.unwrap()).unwrap();
    assert!(stored.abs_diff(db.now) <= 1);
}

#[test]
fn test_active_time_accumulation() {
    let mut db = Db::new("wall_clock");
    let mut u = update(1.0, 10, 0);
    u.active_time_seconds = Some(0);
    u.last_activity = Some("2025-01-01T10:00:00Z".to_string());
    db.update_session("test-session", u);
    let mut u = update(2.0, 20, 0);
    u.active_time_seconds = Some(300);
    u.last_activity = Some("2025-01-01T10:05:00Z".to_string());
    db.update_session("test-session", u);
    let (active_time, _) = db.tables.get_session_active_time("test-session").unwrap();
    assert_eq!(active_time, Some(300));
}

#[test]
fn test_active_time_ignores_long_gaps() {
    let mut db = Db::new("wall_clock");
    let mut u = update(1.0, 10, 0);
    u.active_time_seconds = Some(0);
    u.last_activity = Some("2025-01-01T10:00:00Z".to_string());
    db.update_session("test-session", u);
    let mut u = update(2.0, 20, 0);
    u.active_time_seconds = Some(0);
    u.last_activity = Some("2025-01-01T12:00:00Z".to_string());
    db.update_session("test-session", u);
    let (active_time, _) = db.tables.get_session_active_time("test-session").unwrap();
    assert_eq!(active_time, Some(0));
}

#[test]
fn test_active_time_calc_adds_gap_below_threshold() {
    let mut db = Db::new("active_time");
    let id = "calc-below-threshold";
    db.update_session(id, update(1.0, 0, 0));
    db.now += 120;
    db.update_session(id, update(2.0, 0, 0));
    let active_time = db.tables.get_session_active_time(id).unwrap().0.unwrap();
    assert!((120..=124).contains(&active_time), "got {active_time}");
    db.now += 30 * 60 - 1;
    db.update_session(id, update(3.0, 0, 0));
    assert_eq!(db.tables.get_session_active_time(id).unwrap().0, Some(120 + 1799));
}

#[test]
fn test_active_time_calc_skips_gap_above_threshold() {
    let mut db = Db::new("active_time");
    let id = "calc-above-threshold";
    db.update_session(id, update(1.0, 0, 0));
    db.now += 1860;
    db.update_session(id, update(2.0, 0, 0));
    let active_time = db.tables.get_session_active_time(id).unwrap().0.unwrap();
    assert!((0..=2).contains(&active_time), "got {active_time}");
    db.now += 30 * 60;
    db.update_session(id, update(3.0, 0, 0));
    assert_eq!(db.tables.get_session_active_time(id).unwrap().0, Some(0));
}

#[test]
fn test_active_time_calc_first_update_starts_at_zero() {
    let mut db = Db::new("active_time");
    db.update_session("calc-first-update", update(1.0, 0, 0));
    assert_eq!(db.tables.get_session_active_time("calc-first-update").unwrap().0, Some(0));
}

#[test]
fn test_update_session_writes_daily_in_same_tx() {
    let mut db = Db::new("active_time");
    db.update_session("daily-same-tx", update(3.5, 0, 0));
    assert_eq!(db.day().total_cost, usd(3.5));
}

#[test]
fn test_reset_session_max_tokens() {
    let mut db = Db::new("wall_clock");
    let id = "test-reset-max-tokens";
    let mut u = update(1.0, 10, 5);
    u.model_name = Some("Opus".to_string());
    u.max_tokens_observed = Some(150000);
    db.update_session(id, u);
    assert_eq!(db.tables.get_session_max_tokens(id), Some(150000));
    db.tables.reset_session_max_tokens(id);
    assert_eq!(db.tables.get_session_max_tokens(id), Some(0));
}

#[test]
fn test_reset_session_max_tokens_nonexistent_session() {
    let mut db = Db::new("wall_clock");
    db.tables.reset_session_max_tokens("nonexistent-session");
    assert!(db.tables.sessions.is_empty());
}

#[test]
fn cost_counter_reset_does_not_go_negative() {
    let mut db = Db::new("wall_clock");
    let (day_total, _) = db.update_session("sess-reset", update(10.0, 100, 20));
    assert_eq!(day_total, usd(10.0));
    let (day_total, _) = db.update_session("sess-reset", update(0.5, 5, 1));
    assert_eq!(day_total, usd(10.5), "reset must add the new counter value");
    let (day_total, _) = db.update_session("sess-reset", update(1.5, 8, 2));
    assert_eq!(day_total, usd(11.5), "post-reset growth must delta from the new baseline");
}

#[test]
fn small_downward_correction_contributes_nothing() {
    let mut db = Db::new("wall_clock");
    db.update_session("sess-corr", update(10.0, 0, 0));
    let (day_total, _) = db.update_session("sess-corr", update(9.8, 0, 0));
    assert_eq!(day_total, usd(10.0), "correction must contribute nothing");
    let (day_total, _) = db.update_session("sess-corr", update(10.3, 0, 0));
    assert_eq!(day_total, usd(10.5), "growth after correction");
}

#[test]
fn line_counters_never_subtract_from_daily_totals() {
    let mut db = Db::new("wall_clock");
    db.update_session("sess-lines", update(1.0, 500, 200));
    db.update_session("sess-lines", update(1.1, 10, 3));
    assert_eq!((db.day().total_lines_added, db.day().total_lines_removed), (510, 203));
}

#[test]
fn counters_are_told_apart() {
    assert_eq!(clamp_reset_delta(12, 10), 2);
    assert_eq!(clamp_reset_delta(10, 10), 0);
    assert_eq!(clamp_reset_delta(5, 10), 0);
    assert_eq!(clamp_reset_delta(4, 10), 4);
    assert_eq!(clamp_reset_delta(0, 10), 0);
    assert_eq!(clamp_reset_delta(-3, 10), 0);
    assert_eq!(clamp_reset_delta(i64::MAX, i64::MIN), u64::MAX as i128);
}

fn tokens(n: u32) -> Option<TokenBreakdown> {
    Some(TokenBreakdown {
        input_tokens: n,
        output_tokens: n + 1,
        cache_read_tokens: n + 2,
        cache_creation_tokens: n + 3,
    })
}

#[test]
fn tokens_never_fall() {
    let mut db = Db::new("wall_clock");
    let mut u = update(1.0, 0, 0);
    u.token_breakdown = tokens(100);
    db.update_session("s", u);
    let mut u = update(1.0, 0, 0);
    u.token_breakdown = tokens(40);
    db.update_session("s", u);
    assert_eq!(db.tables.get_session_token_breakdown("s"), Some((100, 101, 102, 103)));
    assert_eq!(db.day().tokens.input, 100);
    let mut u = update(1.0, 0, 0);
    u.token_breakdown = tokens(110);
    db.update_session("s", u);
    assert_eq!(db.day().tokens.cache_creation, 113);
    db.tables.update_max_tokens_observed("s", 7);
    db.tables.update_max_tokens_observed("s", 5);
    assert_eq!(db.tables.get_session_max_tokens("s"), Some(7));
    assert_eq!(db.tables.get_session_max_tokens("t"), None);
    assert_eq!(db.tables.reset_all_sessions_max_tokens(), 1);
    assert_eq!(db.tables.get_session_max_tokens("s"), Some(0));
}

#[test]
fn negative_tokens_are_not_given_out() {
    let mut db = Db::new("wall_clock");
    db.update_session("s", update(1.0, 0, 0));
    let mut r = db.tables.sessions.get("s").unwrap().duplicate();
    r.tokens.output = -1;
    db.tables.sessions.insert("s".to_string(), r);
    assert_eq!(db.tables.get_session_token_breakdown("s"), None);
}

#[test]
fn a_long_break_ends_the_work_period() {
    let mut db = Db::new("auto_reset");
    let mut u = update(10.0, 100, 50);
    u.token_breakdown = tokens(1000);
    db.update_session("s", u);
    let first = db.tables.get_session_start_time("s").unwrap();
    db.now += 30 * 60 - 1;
    db.update_session("s", update(11.0, 110, 50));
    assert_eq!(db.tables.archive.len(), 0);
    let ended = at(db.now).now;
    db.now += 30 * 60;
    let mut u = update(12.5, 120, 51);
    u.token_breakdown = tokens(1500);
    let (day_total, session_total) = db.update_session("s", u);
    assert_eq!(day_total, usd(12.5), "nothing is counted twice");
    assert_eq!(session_total, usd(12.5));
    assert_eq!(db.day().total_lines_added, 120);
    assert_eq!(db.day().tokens.input, 2500, "tokens are not archived");
    assert_eq!(db.tables.archive.len(), 1);
    let a = &db.tables.archive[0];
    assert_eq!(a.session_id, "s");
    assert_eq!(a.start_time, first);
    assert_eq!(a.end_time, ended);
    assert_eq!(a.archived_at, at(db.now).now);
    assert_eq!(a.cost, usd(11.0));
    assert_eq!(db.tables.get_session_start_time("s").unwrap(), at(db.now).now);
    db.now += 3600;
    let (day_total, _) = db.update_session("s", update(0.5, 1, 0));
    assert_eq!(day_total, usd(13.0), "a counter that starts again after a break adds itself");
    assert_eq!(db.tables.archive.len(), 2);
}

#[test]
fn a_break_ends_nothing_in_other_modes() {
    for mode in ["wall_clock", "active_time", "anything"] {
        let mut db = Db::new(mode);
        db.update_session("s", update(10.0, 0, 0));
        db.now += 100_000;
        db.update_session("s", update(11.0, 0, 0));
        assert_eq!(db.tables.archive.len(), 0, "{mode}");
    }
}

#[test]
fn attribution_is_overwritten_and_needs_a_record() {
    let mut db = Db::new("wall_clock");
    db.update_session("s", update(1.0, 0, 0));
    let mut main = TranscriptTotals::default();
    main.requests = 3;
    main.input_tokens = 10;
    main.cache_read_tokens = 20;
    let mut s = AgentsSummary::of_main(main);
    db.tables.update_session_agents("s", Some("2.1"), &s);
    db.tables.update_session_agents("t", Some("2.1"), &s);
    assert!(db.tables.sessions.get("t").is_none());
    s.main.requests = 4;
    db.tables.update_session_agents("s", None, &s);
    let r = db.tables.sessions.get("s").unwrap();
    assert_eq!(r.version.as_deref(), Some("2.1"));
    assert_eq!(r.attribution.main_requests, 4);
    assert_eq!(r.attribution.main_input_tokens, 30);
}

#[test]
fn an_update_that_does_not_fit_changes_nothing() {
    let mut db = Db::new("wall_clock");
    db.update_session("s", update(1.0, 0, 0));
    let u = update(1.0, i64::MAX as u64, 0);
    db.tables.update_session("u", u, &db.config, &at(db.now), Some(db.now), 2, 2).unwrap();
    let u = update(1.0, 1, 0);
    let r = db.tables.update_session("t", u, &db.config, &at(db.now), Some(db.now), 2, 2);
    assert!(r.is_none());
    assert!(db.tables.sessions.get("t").is_none());
    assert_eq!(db.day().total_cost, usd(2.0));
    let u = update(1.0, u64::MAX, 0);
    assert!(db.tables.update_session("t", u, &db.config, &at(db.now), None, 2, 2).is_none());
}

#[test]
fn maintenance_prunes_and_vacuums_as_asked() {
    let plan = |force, no_prune, due| {
        let p = plan_maintenance(force, no_prune, due);
        (p.prunes, p.vacuums)
    };
    assert_eq!(plan(false, false, false), (true, false));
    assert_eq!(plan(false, true, true), (false, true));
    assert_eq!(plan(true, false, false), (true, true));
    assert_eq!(plan(true, true, false), (false, true));
}

#[test]
fn costs_are_added_as_doubles() {
    let mut db = Db::new("wall_clock");
    db.update_session("a", update(0.1, 0, 0));
    let (day, _) = db.update_session("b", update(0.2, 0, 0));
    assert_eq!(day, usd(0.1 + 0.2));
    assert_ne!(day, usd(0.3));
    let (day, _) = db.update_session("c", update(1e-12, 0, 0));
    assert_eq!(day, usd(0.1 + 0.2 + 1e-12));
    let (day, _) = db.update_session("d", update(1e12, 0, 0));
    assert_eq!(day, usd(0.1 + 0.2 + 1e-12 + 1e12));
}

#[test]
fn durations_are_counted_from_the_start() {
    let mut db = Db::new("wall_clock");
    db.update_session("s", update(1.0, 0, 0));
    let later = Timestamp { seconds: START as i64 + 90, nanos: 500_000_000 };
    assert_eq!(db.tables.get_session_duration("s", later), Some(90));
    assert_eq!(db.tables.get_session_duration("t", later), None);
    assert_eq!(parse_iso8601_to_unix("1969-12-31T23:59:59Z"), None);
    assert_eq!(parse_iso8601_to_unix("2025-08-25T12:00:00+02:00"), Some(START));
    assert_eq!(parse_iso8601_to_unix("yesterday"), None);
}

#[test]
fn sessions_are_imported_once() {
    let mut db = Db::new("wall_clock");
    db.update_session("s", update(1.0, 0, 0));
    let stats = |cost: f64| SessionStats {
        last_updated: "2025-01-02T00:00:00Z".to_string(),
        cost: usd(cost),
        lines_added: 1,
        lines_removed: 2,
        start_time: None,
        max_tokens_observed: Some(9),
        active_time_seconds: Some(3),
        last_activity: None,
    };
    let mut m = TextMap::new();
    m.insert("s".to_string(), stats(5.0));
    m.insert("t".to_string(), stats(6.0));
    db.tables.import_sessions(&m);
    assert_eq!(db.tables.sessions.get("s").unwrap().cost, usd(1.0));
    let t = db.tables.sessions.get("t").unwrap();
    assert_eq!(t.cost, usd(6.0));
    assert_eq!(t.start_time, "");
    assert_eq!(t.max_tokens_observed, Some(0));
    assert_eq!(t.active_time_seconds, Some(3));
}

#[test]
fn burn_rate_defaults_fill_in_what_is_missing() {
    let u = update(1.0, 0, 0).with_burn_rate_defaults("now");
    assert_eq!(u.active_time_seconds, Some(0));
    assert_eq!(u.last_activity.as_deref(), Some("now"));
    let mut u = update(1.0, 0, 0);
    u.active_time_seconds = Some(4);
    u.last_activity = Some("then".to_string());
    let u = u.with_burn_rate_defaults("now");
    assert_eq!(u.active_time_seconds, Some(4));
    assert_eq!(u.last_activity.as_deref(), Some("then"));
}

#[test]
fn test_public_api_surface() {
    let _update = update(0.0, 0, 0);
    let _result = MaintenanceResult {
        checkpoint_done: false,
        optimize_done: false,
        vacuum_done: false,
        prune_done: false,
        records_pruned: 0,
        integrity_ok: true,
    };
}

#[test]
fn old_rows_go_by_their_kind() {
    let none = RetentionConfig {
        retention_days_sessions: None,
        retention_days_daily: None,
        retention_days_monthly: None,
    };
    let c = prune_cutoffs(&none, START as i64);
    assert_eq!(c.sessions.as_deref(), Some("2025-05-27T10:00:00"));
    assert_eq!(c.daily.as_deref(), Some("2024-08-25"));
    assert_eq!(c.monthly, None);
    let some = RetentionConfig {
        retention_days_sessions: Some(0),
        retention_days_daily: Some(1),
        retention_days_monthly: Some(31),
    };
    let c = prune_cutoffs(&some, START as i64);
    assert_eq!(c.sessions, None);
    assert_eq!(c.daily.as_deref(), Some("2025-08-24"));
    assert_eq!(c.monthly.as_deref(), Some("2025-07"));
}

#[test]
fn a_vacuum_is_due_by_size_or_by_age() {
    let now = Timestamp { seconds: START as i64, nanos: 0 };
    assert!(should_vacuum(2561, 4096, Some("2025-08-25T09:00:00Z"), now));
    assert!(!should_vacuum(2560, 4096, Some("2025-08-25T09:00:00Z"), now));
    assert!(!should_vacuum(1, 4096, Some("2025-08-17T10:00:01Z"), now));
    assert!(should_vacuum(1, 4096, Some("2025-08-17T10:00:00Z"), now));
    assert!(should_vacuum(1, 4096, None, now));
    assert!(should_vacuum(1, 4096, Some("never"), now));
    let last = Timestamp { seconds: START as i64 - 691_200, nanos: 1 };
    assert!(!is_vacuum_overdue(Some(last), now));
}

#[test]
fn maintenance_reports_what_was_done() {
    let r = maintenance_result(0, &vec![1, 0, 2], true, "ok");
    assert_eq!(r.records_pruned, 3);
    assert!(r.checkpoint_done && r.optimize_done && r.vacuum_done && r.prune_done && r.integrity_ok);
    let r = maintenance_result(1, &vec![], false, "corrupt");
    assert!(!r.checkpoint_done && !r.prune_done && !r.integrity_ok && !r.vacuum_done);
}

#[test]
fn a_store_without_sessions_is_new() {
    let new = OpenPlan { create_schema: true, ensure_base_tables: false, run_migrations: true };
    assert_eq!(plan_open(Some(0), false), new);
    assert_eq!(plan_open(None, false), new);
    let old = OpenPlan { create_schema: false, ensure_base_tables: true, run_migrations: false };
    assert_eq!(plan_open(Some(1), true), old);
}
