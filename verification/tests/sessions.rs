use statusline::commands::sessions::{
    expand_tilde, hms, index_and_filter, list_lines, main_transcript, resolve, share, short,
    show_lines, under_workspace, ws_tail, Host, SessionRow, TranscriptRow,
};
use statusline::commands::stats::{
    choose_view, show_by_version, show_sessions, SpendRow, StatsView, VersionRow,
};
use statusline::double::Double;

fn double(x: f64) -> Double {
    Double { bits: x.to_bits() }
}

fn row(id: &str) -> SessionRow {
    SessionRow {
        session_id: id.to_string(),
        start_time: "2026-09-16T00:00:00Z".into(),
        last_updated: "2026-09-16T00:00:00Z".into(),
        cost: double(0.0),
        lines_added: 0,
        lines_removed: 0,
        max_tokens_observed: 0,
        model_name: None,
        workspace_dir: Some("/home/x/Work/addons/claudia-statusline".into()),
        total_input_tokens: 0,
        total_output_tokens: 0,
        total_cache_read_tokens: 0,
        total_cache_creation_tokens: 0,
        active_time_seconds: 3725,
        version: None,
        agent_count: 0,
        agent_requests: 0,
        agent_input_tokens: 0,
        agent_output_tokens: 0,
        main_requests: 0,
        main_input_tokens: 0,
        main_output_tokens: 0,
    }
}

#[test]
fn resolve_by_index_and_prefix() {
    let rows = vec![row("e0490618-aaaa"), row("fe2e3416-bbbb"), row("fe2e0000-cccc")];
    assert_eq!(resolve(&rows, "2").unwrap().session_id, "fe2e3416-bbbb");
    assert_eq!(resolve(&rows, "E049").unwrap().session_id, "e0490618-aaaa");
    assert!(resolve(&rows, "fe2e").is_err(), "ambiguous prefix must fail");
    assert!(resolve(&rows, "0").is_err());
    assert!(resolve(&rows, "4").is_err());
    assert!(resolve(&rows, "zzz").is_err());
    assert!(resolve(&rows, "  ").is_err());
}

#[test]
fn resolve_says_why() {
    let rows = vec![row("e0490618-aaaa"), row("fe2e3416-bbbb"), row("fe2e0000-cccc")];
    let said = |sel: &str| resolve(&rows, sel).unwrap_err().message().to_string();
    assert_eq!(said(" "), "empty selection");
    assert_eq!(said(" zzz "), "no session matches 'zzz' (index 1..3 or id prefix)");
    assert_eq!(
        said("FE2E"),
        "'FE2E' matches 2 sessions, lengthen the prefix:\n  fe2e3416-bbbb\n  fe2e0000-cccc"
    );
    let many: Vec<SessionRow> = (0..12).map(|i| row(&format!("ab{i:02}"))).collect();
    let e = resolve(&many, "ab").unwrap_err().message().to_string();
    assert!(e.starts_with("'ab' matches 12 sessions"));
    assert_eq!(e.lines().count(), 9);
    assert_eq!(resolve(&many, "12").unwrap().session_id, "ab11");
    assert_eq!(resolve(&many, "+3").unwrap().session_id, "ab02");
}

#[test]
fn helpers() {
    assert_eq!(hms(3725), "1h02m");
    assert_eq!(
        ws_tail(&Some("/home/x/Work/addons/claudia-statusline".into())),
        "addons/claudia-statusline"
    );
    assert_eq!(ws_tail(&None), "");
    assert_eq!(share(25, 75), "25.0");
    assert_eq!(share(0, 0), "0.0");
}

#[test]
fn more_helpers() {
    assert_eq!(hms(0), "0h00m");
    assert_eq!(hms(-3725), "-1h-2m");
    assert_eq!(hms(360_059), "100h00m");
    assert_eq!(ws_tail(&Some("/x//y/".into())), "x/y");
    assert_eq!(ws_tail(&Some("/".into())), "");
    assert_eq!(ws_tail(&Some("one".into())), "one");
    assert_eq!(share(1, 2), "33.3");
    assert_eq!(short(&Some("abcdef".into()), 3), "abc");
    assert_eq!(short(&None, 3), "");
}

#[test]
fn shares_read_as_doubles_do() {
    for (a, m) in [(1i64, 3i64), (2, 1), (7, 93), (12345, 67890), (-5, 10), (5, -10), (1, 1999)] {
        let f = (a * 100) as f64 / (a + m) as f64;
        assert_eq!(share(a, m), format!("{f:.1}"), "{a} of {m}");
    }
}

#[test]
fn under_workspace_matches_per_component() {
    let f = "/home/x/appz";
    assert!(under_workspace(Some(&"/home/x/appz".into()), f));
    assert!(under_workspace(Some(&"/home/x/appz/".into()), f));
    assert!(under_workspace(Some(&"/home/x/appz/sub/deep".into()), f));
    assert!(under_workspace(Some(&"/home/x/appz".into()), "/home/x/appz/"));
    assert!(
        !under_workspace(Some(&"/home/x/appz2".into()), f),
        "raw prefix must not match a sibling"
    );
    assert!(!under_workspace(Some(&"/home/x".into()), f));
    assert!(!under_workspace(None, f));
}

#[test]
fn everything_is_under_the_root() {
    assert!(under_workspace(Some(&"/home/x".into()), "/"));
    assert!(!under_workspace(Some(&"home".into()), "/"));
}

#[test]
fn index_and_filter_keeps_global_index_and_limits_after_filter() {
    let mut rows = vec![row("a"), row("b"), row("c"), row("d")];
    rows[1].workspace_dir = Some("/elsewhere".into());
    rows[3].workspace_dir = None;
    let f = Some("/home/x/Work");

    let all: Vec<usize> = index_and_filter(&rows, None, 0).iter().map(|(i, _)| *i).collect();
    assert_eq!(all, vec![1, 2, 3, 4]);

    let view = index_and_filter(&rows, f, 0);
    let idx: Vec<usize> = view.iter().map(|(i, _)| *i).collect();
    assert_eq!(idx, vec![1, 3], "# stays the unfiltered position");
    assert_eq!(view[1].1.session_id, "c");

    let limited = index_and_filter(&rows, f, 1);
    assert_eq!(limited.len(), 1);
    assert_eq!(limited[0].0, 1);
    assert_eq!(index_and_filter(&rows, None, 2).len(), 2);
}

#[test]
fn a_listed_number_selects_its_session() {
    let mut rows: Vec<SessionRow> = (0..20).map(|i| row(&format!("1{i:02}"))).collect();
    for i in 0..20 {
        if i % 3 == 0 {
            rows[i].workspace_dir = Some("/elsewhere".into());
        }
    }
    for (n, r) in index_and_filter(&rows, Some("/home/x"), 5) {
        assert_eq!(resolve(&rows, &n.to_string()).unwrap().session_id, r.session_id);
    }
}

#[test]
fn tildes_are_expanded() {
    assert_eq!(expand_tilde("~", Some("/home/x")), "/home/x");
    assert_eq!(expand_tilde("~/a", Some("/home/x")), "/home/x/a");
    assert_eq!(expand_tilde("~x/y", Some("/home/x")), "~x/y");
    assert_eq!(expand_tilde("/no/such/dir/at/all", Some("/home/x")), "/no/such/dir/at/all");
    assert_eq!(expand_tilde("~", None), "~");
    assert_eq!(expand_tilde(".", Some("/home/x")), ".");
}

#[test]
fn the_list_reads_as_a_table() {
    let mut r = row("e0490618-aaaa");
    r.version = Some("2.1.90-beta".into());
    r.model_name = Some("Some Model".into());
    r.cost = double(1.2345);
    r.main_requests = 12;
    r.agent_count = 3;
    r.agent_input_tokens = 1;
    r.main_input_tokens = 2;
    let rows = vec![r];
    let lines = list_lines(&rows, None, 0, true);
    assert_eq!(
        lines[0],
        format!(
            "{:>3}  {:<8} {:<16} {:<16} {:<9} {:<18} {:<22} {:>8} {:>6} {:>6} {:>8}",
            "#",
            "session",
            "start",
            "last",
            "version",
            "model",
            "workspace",
            "main_req",
            "agents",
            "share%",
            "cost*"
        )
    );
    assert_eq!(
        lines[1],
        format!(
            "{:>3}  {:<8} {:<16} {:<16} {:<9} {:<18} {:<22} {:>8} {:>6} {:>5.1}% {:>8.2}",
            1,
            "e0490618",
            "2026-09-16T00:00",
            "2026-09-16T00:00",
            "2.1.90-be",
            "Some Model",
            "addons/claudia-statusl",
            12,
            3,
            100.0 / 3.0,
            1.2345
        )
    );
    assert_eq!(lines.len(), 6);
    assert_eq!(lines[2], "");
    let filtered = list_lines(&rows, Some("/home/x"), 0, true);
    assert_eq!(filtered.len(), 8);
    assert!(filtered[7].starts_with("filtered by workspace"));
    assert_eq!(list_lines(&rows, Some("/home/x"), 0, false).len(), 6);
    assert_eq!(list_lines(&rows, Some("/y"), 0, true), vec!["(no sessions recorded under /y)"]);
    assert_eq!(list_lines(&[], None, 0, true), vec!["(no sessions recorded)"]);
}

fn transcript(path: &str, is_agent: bool) -> TranscriptRow {
    TranscriptRow {
        path: path.into(),
        is_agent,
        agent_type: None,
        size: 2047,
        requests: 4,
        input_tokens: 10,
        cache_read_tokens: 20,
        cache_creation_tokens: 5,
        output_tokens: 7,
    }
}

#[test]
fn a_session_is_shown_in_full() {
    let mut r = row("e0490618-aaaa");
    r.main_requests = 4;
    r.main_input_tokens = 10_000;
    r.main_output_tokens = 10;
    r.agent_input_tokens = 5_000;
    r.cost = double(0.5);
    let host = Host { name: "the host".into(), command: "host".into() };
    let ts = vec![
        transcript("/a/sub/agent-1.jsonl.jsonl", true),
        transcript("/a/main.jsonl", false),
        transcript("/a/other.jsonl", false),
    ];
    assert_eq!(main_transcript(&ts).as_deref(), Some("/a/main.jsonl"));
    let lines = show_lines(&r, &ts, false, &host);
    assert_eq!(lines[0], "session_id        e0490618-aaaa");
    assert!(lines.contains(&"active_time       1h02m (3725 s)".to_string()));
    assert!(lines.contains(&"cost*             $0.50".to_string()));
    assert!(lines.contains(&"model             ?".to_string()));
    assert!(lines.contains(&format!(
        "  main    requests {:>6}  in {:>12}  out {:>10}  in_k/req {:>7.1}  out/req {:>6.0}",
        4, 10_000, 10, 2.5, 2.5
    )));
    assert!(lines.contains(&format!(
        "  agents  requests {:>6}  in {:>12}  out {:>10}  files {:>4}  share {:>5.1}%",
        0,
        5_000,
        0,
        0,
        100.0 / 3.0
    )));
    assert!(lines.contains(&format!(
        "agent transcripts ({}):  {:<18} {:>6} {:>10} {:>10} {:>9} {:>8}",
        1, "type", "req", "in", "cache_rd", "out", "size_kB"
    )));
    assert!(lines.contains(&format!(
        "  {:<28} {:<18} {:>6} {:>10} {:>10} {:>9} {:>8}",
        "agent-1", "?", 4, 15, 20, 7, 1
    )));
    assert_eq!(lines[lines.len() - 2], "transcript        /a/main.jsonl  (missing on disk)");
    assert_eq!(lines[lines.len() - 1], "resume            host --resume e0490618-aaaa");
    let bare = show_lines(&r, &vec![], true, &host);
    assert!(bare[bare.len() - 2].contains("not scanned yet"));
    assert!(!bare.iter().any(|l| l.contains("agent transcripts")));
}

#[test]
fn versions_are_compared_by_ratios() {
    assert_eq!(choose_view(false, true), StatsView::Sessions);
    assert_eq!(choose_view(true, true), StatsView::ByVersion);
    assert_eq!(choose_view(false, false), StatsView::ByVersion);
    let v = VersionRow {
        version: "2.1.90".into(),
        sessions: 3,
        first: "2026-01-01".into(),
        last: "2026-01-31".into(),
        main_requests: 7,
        main_input_tokens: 123_456,
        main_output_tokens: 1_000,
        agent_count: 2,
        agent_requests: 0,
        agent_input_tokens: 1_000,
        agent_output_tokens: 5,
    };
    let lines = show_by_version(&vec![v]);
    assert_eq!(
        lines[1],
        format!(
            "{:<10} {:>5}  {:<10} {:<10} {:>8} {:>9.1} {:>8.0} {:>7} {:>9} {:>9.0} {:>6.1}%",
            "2.1.90",
            3,
            "2026-01-01",
            "2026-01-31",
            7,
            123_456.0 / 7.0 / 1000.0,
            1_000.0 / 7.0,
            2,
            0,
            0.0,
            100_000.0 / 124_456.0
        )
    );
    assert_eq!(lines.len(), 5);
    assert_eq!(show_by_version(&vec![]).len(), 2);
}

#[test]
fn sessions_are_compared_by_ratios() {
    let r = SpendRow {
        session: "e0490618".into(),
        version: "2.1.90".into(),
        start: "2026-09-16T00:00".into(),
        model: "A model with a very long name".into(),
        main_requests: 3,
        main_input_tokens: 10_000,
        main_output_tokens: 500,
        agent_count: 1,
        agent_input_tokens: 10_000,
        cost: double(1.005),
    };
    let lines = show_sessions(&vec![r]);
    assert_eq!(
        lines[1],
        format!(
            "{:<8} {:<9} {:<16} {:<18} {:>8} {:>9.1} {:>8.0} {:>6} {:>6.1}% {:>9.2}",
            "e0490618",
            "2.1.90",
            "2026-09-16T00:00",
            "A model with a ver",
            3,
            10_000.0 / 3.0 / 1000.0,
            500.0 / 3.0,
            1,
            50.0,
            1.005
        )
    );
    assert_eq!(lines.len(), 4);
}
