use statusline::config::BurnRateConfig;
use statusline::database::records::{SessionUpdate, TokenBreakdown};
use statusline::database::session::BurnMode;
use statusline::database::tables::Moment;
use statusline::display::line::Cost;
use statusline::double::Double;
use statusline::models::{Model, StatuslineInput, Workspace};
use statusline::render::{plan_stats, update_stats_and_daily_total};
use statusline::stats::session::{
    duration_by_mode, get_session_duration, get_session_duration_by_mode, session_was_reset,
    start_times_differ, StoredFacts,
};
use statusline::stats::StatsData;

fn usd(x: f64) -> Double {
    Double { bits: x.to_bits() }
}

fn update(cost: f64, added: u64, removed: u64) -> SessionUpdate {
    SessionUpdate {
        cost: usd(cost),
        lines_added: added,
        lines_removed: removed,
        model_name: None,
        workspace_dir: None,
        device_id: None,
        token_breakdown: None,
        max_tokens_observed: None,
        active_time_seconds: None,
        last_activity: None,
    }
}

fn moment(day: u32) -> Moment {
    Moment {
        now: format!("2025-08-{day:02}T10:00:00+00:00"),
        today: format!("2025-08-{day:02}"),
        month: "2025-08".to_string(),
    }
}

fn store(was_reset: bool, seen: bool) -> StoredFacts {
    StoredFacts {
        was_reset,
        active_time_seconds: Some(5),
        last_activity: None,
        seen_this_month: seen,
    }
}

fn config(mode: &str) -> BurnRateConfig {
    BurnRateConfig {
        mode: mode.to_string(),
        inactivity_threshold_minutes: 30,
        min_duration_seconds: 60,
    }
}

#[test]
fn totals_grow_by_what_is_new() {
    let mut d = StatsData::new();
    assert_eq!(
        d.update_session("a", &update(10.0, 5, 2), &moment(1), store(false, false)),
        Some((usd(10.0), usd(10.0)))
    );
    assert_eq!(
        d.update_session("a", &update(12.0, 6, 2), &moment(1), store(false, false)),
        Some((usd(12.0), usd(12.0)))
    );
    assert_eq!(
        d.update_session("b", &update(1.0, 1, 1), &moment(2), store(false, false)),
        Some((usd(1.0), usd(13.0)))
    );
    assert_eq!(
        d.update_session("a", &update(3.0, 1, 0), &moment(2), store(false, false)),
        Some((usd(4.0), usd(16.0)))
    );
    assert_eq!(d.all_time.total_cost, usd(16.0));
    assert_eq!(d.all_time.sessions, 2);
    let month = d.monthly.get("2025-08").unwrap();
    assert_eq!(month.sessions, 2, "a session counts once a month");
    assert_eq!((month.lines_added, month.lines_removed), (8, 3));
    let day = d.daily.get("2025-08-02").unwrap();
    assert_eq!(day.sessions, vec!["b", "a"]);
    assert_eq!(d.last_updated, moment(2).now);
    assert_eq!(d.sessions.get("a").unwrap().start_time.as_deref(), Some(moment(1).now.as_str()));
    assert_eq!(d.sessions.get("a").unwrap().active_time_seconds, Some(5));
}

#[test]
fn a_session_that_the_store_has_seen_is_not_new() {
    let mut d = StatsData::new();
    d.update_session("a", &update(1.0, 0, 0), &moment(1), store(false, true)).unwrap();
    assert_eq!(d.monthly.get("2025-08").unwrap().sessions, 0);
    assert!(d.session_seen_in("2025-08", "a"));
    assert!(!d.session_seen_in("2025-09", "a"));
    assert!(!d.session_seen_in("2025-08", "b"));
}

#[test]
fn a_reset_session_counts_in_full() {
    let mut d = StatsData::new();
    d.update_session("a", &update(10.0, 5, 2), &moment(1), store(false, false)).unwrap();
    d.update_max_tokens("a", 100);
    let r = d.update_session("a", &update(11.0, 6, 2), &moment(2), store(true, true)).unwrap();
    assert_eq!(r, (usd(11.0), usd(21.0)));
    let a = d.sessions.get("a").unwrap();
    assert_eq!(a.start_time.as_deref(), Some(moment(2).now.as_str()));
    assert_eq!(a.max_tokens_observed, None);
    assert_eq!(d.all_time.sessions, 2);
}

#[test]
fn a_repeated_update_adds_nothing() {
    let mut d = StatsData::new();
    let first = d.update_session("a", &update(10.0, 5, 2), &moment(1), store(false, false));
    let again = d.update_session("a", &update(10.0, 5, 2), &moment(1), store(false, false));
    assert_eq!(first, again);
    assert_eq!(d.monthly.get("2025-08").unwrap().sessions, 1);
}

#[test]
fn a_sum_that_does_not_fit_changes_nothing() {
    let mut d = StatsData::new();
    d.update_session("a", &update(10.0, 5, 2), &moment(1), store(false, false)).unwrap();
    let u = update(1.0, u64::MAX, 0);
    assert!(d.update_session("b", &u, &moment(1), store(false, false)).is_none());
    assert!(d.sessions.get("b").is_none());
    assert_eq!(d.daily_total("2025-08-01"), usd(10.0));
    assert_eq!(d.daily_total("2025-08-09"), usd(0.0));
}

#[test]
fn the_most_tokens_are_kept() {
    let mut d = StatsData::new();
    d.update_session("a", &update(1.0, 0, 0), &moment(1), store(false, false)).unwrap();
    d.update_max_tokens("a", 100);
    d.update_max_tokens("a", 50);
    d.update_max_tokens("b", 70);
    assert_eq!(d.sessions.get("a").unwrap().max_tokens_observed, Some(100));
    assert!(d.sessions.get("b").is_none());
}

#[test]
fn a_reset_shows_in_the_start_time() {
    let a = Some("2025-08-01T10:00:00Z");
    let b = Some("2025-08-01T10:00:01Z");
    let c = Some("2025-08-01T10:00:02Z");
    assert!(!session_was_reset(&config("auto_reset"), a, b));
    assert!(session_was_reset(&config("auto_reset"), a, c));
    assert!(session_was_reset(&config("auto_reset"), c, a));
    assert!(!session_was_reset(&config("wall_clock"), a, c));
    assert!(!session_was_reset(&config("auto_reset"), a, None));
    assert!(!session_was_reset(&config("auto_reset"), Some("?"), c));
    assert!(start_times_differ(Some(u64::MAX), Some(0)));
    assert!(!start_times_differ(None, Some(0)));
}

#[test]
fn durations_follow_the_mode() {
    let mut d = StatsData::new();
    d.update_session("a", &update(1.0, 0, 0), &moment(1), store(false, false)).unwrap();
    let start = 1_754_042_400; // 2025-08-01T10:00:00Z
    assert_eq!(get_session_duration(&d, "a", Some(start + 90)), Some(90));
    assert_eq!(get_session_duration(&d, "a", Some(start - 90)), Some(0));
    assert_eq!(get_session_duration(&d, "a", None), None);
    assert_eq!(get_session_duration(&d, "b", Some(start)), None);
    let by = |mode: &str, active: Option<u64>| {
        get_session_duration_by_mode(&d, &config(mode), "a", active, Some(start + 90))
    };
    assert_eq!(by("active_time", Some(7)), Some(7));
    assert_eq!(by("active_time", None), Some(90));
    assert_eq!(by("auto_reset", Some(7)), Some(90));
    assert_eq!(by("wall_clock", Some(7)), Some(90));
    assert_eq!(duration_by_mode(BurnMode::ActiveTime, None, None), None);
}

fn input() -> StatuslineInput {
    let mut i = StatuslineInput::default();
    i.session_id = Some("a".to_string());
    i.transcript = Some("/t.jsonl".to_string());
    i.workspace = Some(Workspace { current_dir: Some("/w".to_string()), repo: None });
    i.model = Some(Model { display_name: Some("M".to_string()), id: Some("m".to_string()) });
    i.cost = Some(Cost {
        total_cost_usd: Some(usd(2.0)),
        total_lines_added: Some(3),
        total_lines_removed: None,
        total_duration_ms: None,
    });
    i
}

#[test]
fn what_is_recorded_is_what_the_session_says() {
    let tokens = TokenBreakdown {
        input_tokens: 1,
        output_tokens: 2,
        cache_read_tokens: 3,
        cache_creation_tokens: 4,
    };
    let p = plan_stats(&input(), true, "dev", Some(tokens), true, true);
    let u = p.update.unwrap();
    assert_eq!(u.cost, usd(2.0));
    assert_eq!((u.lines_added, u.lines_removed), (3, 0));
    assert_eq!(u.model_name.as_deref(), Some("M"));
    assert_eq!(u.workspace_dir.as_deref(), Some("/w"));
    assert_eq!(u.device_id.as_deref(), Some("dev"));
    assert_eq!(u.token_breakdown, Some(tokens));
    assert!(p.tracks_tokens && p.learns && p.scans_agents && p.stores_agents);
    let p = plan_stats(&input(), false, "dev", None, true, true);
    assert!(p.update.is_none() && !p.tracks_tokens && !p.learns && !p.stores_agents);
    assert!(p.scans_agents);
    let mut i = input();
    i.cost = None;
    let p = plan_stats(&i, true, "dev", None, false, false);
    assert!(p.update.is_none() && p.tracks_tokens && !p.learns && !p.scans_agents);
}

#[test]
fn the_day_is_given_back_after_the_cost() {
    let mut d = StatsData::new();
    let go = |d: &mut StatsData, i: &StatuslineInput, update: bool| {
        update_stats_and_daily_total(
            d,
            i,
            update,
            "dev",
            None,
            Some(77),
            &moment(1),
            store(false, false),
        )
    };
    assert_eq!(go(&mut d, &input(), false), usd(0.0));
    assert!(d.sessions.is_empty());
    assert_eq!(go(&mut d, &input(), true), usd(2.0));
    assert_eq!(d.sessions.get("a").unwrap().max_tokens_observed, Some(77));
    let mut i = input();
    i.cost = None;
    assert_eq!(go(&mut d, &i, true), usd(2.0));
    i.session_id = None;
    assert_eq!(go(&mut d, &i, true), usd(2.0));
}
