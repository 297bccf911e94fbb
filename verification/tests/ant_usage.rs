use chrono::TimeZone;
use statusline::ant::cache::{sanitize_account_name as sanitize, TokenBreakdown};
use statusline::ant::usage::{
    accumulate_tokens, assemble_usage, cost_query, curl_get, key_command, key_in_output,
    next_page_token, report_arguments, report_failure, report_parse_failure, report_url,
    resolve_admin_key, sanitize_stderr, split_http_code, usage_query, utc_windows,
    validate_page_token, Bucket, CacheCreation, ReportEnvelope, UsageItem, MAX_PAGE_TOKEN_LEN,
};
use statusline::clock::Timestamp;
use statusline::double::Double;
use statusline::text_map::TextMap;

fn double(x: f64) -> Double {
    Double { bits: x.to_bits() }
}

fn item(model: Option<&str>, uncached: u64, read: u64, output: u64, h1: u64, m5: u64) -> UsageItem {
    UsageItem {
        model: model.map(|m| m.to_string()),
        uncached_input_tokens: uncached,
        cache_read_input_tokens: read,
        output_tokens: output,
        cache_creation: CacheCreation {
            ephemeral_1h_input_tokens: h1,
            ephemeral_5m_input_tokens: m5,
        },
    }
}

fn envelope(buckets: Vec<Vec<UsageItem>>) -> ReportEnvelope<UsageItem> {
    ReportEnvelope {
        data: buckets.into_iter().map(|results| Bucket { results }).collect(),
        has_more: false,
        next_page: None,
    }
}

fn two_day_report() -> ReportEnvelope<UsageItem> {
    envelope(vec![
        vec![item(Some("opus"), 100, 10, 50, 1, 2), item(Some("sonnet"), 200, 0, 80, 0, 0)],
        vec![item(Some("opus"), 300, 0, 40, 0, 0)],
    ])
}

#[test]
fn usage_utc_windows_today_mtd() {
    let now = chrono::Utc.with_ymd_and_hms(2026, 6, 14, 13, 45, 0).unwrap();
    let w = utc_windows(now.timestamp());
    assert!(w.today.starting_at.starts_with("2026-06-14T00:00:00"));
    assert!(w.today.ending_at.starts_with("2026-06-15T00:00:00"));
    assert!(w.mtd.starting_at.starts_with("2026-06-01T00:00:00"));
    assert_eq!(w.mtd.ending_at, w.today.ending_at);
    assert_eq!(w.today.starting_at, "2026-06-14T00:00:00Z");
    assert_eq!(w.today.ending_at, "2026-06-15T00:00:00Z");
    assert_eq!(w.mtd.starting_at, "2026-06-01T00:00:00Z");
    for ts in [
        &w.today.starting_at,
        &w.today.ending_at,
        &w.mtd.starting_at,
        &w.mtd.ending_at,
    ] {
        assert!(ts.ends_with('Z'), "must be Z-suffixed UTC: {ts}");
        assert!(!ts.contains('+'), "must not carry a +offset: {ts}");
    }
}

#[test]
fn windows_before_the_epoch_and_at_month_ends() {
    let w = utc_windows(-1);
    assert_eq!(w.today.starting_at, "1969-12-31T00:00:00Z");
    assert_eq!(w.today.ending_at, "1970-01-01T00:00:00Z");
    assert_eq!(w.mtd.starting_at, "1969-12-01T00:00:00Z");
    let leap = chrono::Utc.with_ymd_and_hms(2024, 2, 29, 0, 0, 0).unwrap();
    let w = utc_windows(leap.timestamp());
    assert_eq!(w.today.starting_at, "2024-02-29T00:00:00Z");
    assert_eq!(w.today.ending_at, "2024-03-01T00:00:00Z");
    assert_eq!(w.mtd.starting_at, "2024-02-01T00:00:00Z");
}

#[test]
fn validate_page_token_accepts_rfc3339_rejects_injection() {
    assert!(validate_page_token("2019-12-27T18:11:19.117Z").is_ok());
    assert!(validate_page_token("page_01H8xYz-abc.123").is_ok());

    assert!(validate_page_token("good\"\nurl = \"http://evil").is_err());
    assert!(validate_page_token("-K/etc/passwd").is_err());
    assert!(validate_page_token("a&b#c").is_err());
    assert!(validate_page_token("a b").is_err());
    assert!(validate_page_token("").is_err());
    assert!(validate_page_token(&"a".repeat(MAX_PAGE_TOKEN_LEN + 1)).is_err());
}

#[test]
fn page_token_refusals_are_told_apart() {
    let said = |t: &str| validate_page_token(t).unwrap_err().message().to_string();
    assert!(said("").contains("out-of-range"));
    assert!(said(&"ä".repeat(129)).contains("out-of-range"));
    assert!(said("-x").contains("flag-like"));
    assert!(said("x\"").contains("malformed"));
    assert!(validate_page_token(&"a".repeat(256)).is_ok());
}

#[test]
fn usage_tokens_by_model_accumulates_per_type() {
    let mut acc: TextMap<TokenBreakdown> = TextMap::new();
    accumulate_tokens(&two_day_report(), &mut acc);

    let opus = acc.get("opus").expect("opus present");
    assert_eq!(opus.uncached_input, 400);
    assert_eq!(opus.cache_read_input, 10);
    assert_eq!(opus.output, 90);
    assert_eq!(opus.cache_creation_1h, 1);
    assert_eq!(opus.cache_creation_5m, 2);
    assert_eq!(opus.total(), 400 + 10 + 90 + 1 + 2);

    let sonnet = acc.get("sonnet").expect("sonnet present");
    assert_eq!(sonnet.total(), 200 + 80);
}

#[test]
fn token_lines_without_a_model_are_skipped_and_counts_stop_at_the_largest() {
    let mut acc: TextMap<TokenBreakdown> = TextMap::new();
    accumulate_tokens(
        &envelope(vec![vec![
            item(None, 1, 1, 1, 1, 1),
            item(Some(""), 1, 1, 1, 1, 1),
            item(Some("m"), u64::MAX, 0, 0, 0, 0),
            item(Some("m"), 5, 0, 0, 0, 0),
        ]]),
        &mut acc,
    );
    assert_eq!(acc.len(), 1);
    assert_eq!(acc.get("m").unwrap().uncached_input, u64::MAX);
}

#[test]
fn pages_add_up_like_one() {
    let mut once: TextMap<TokenBreakdown> = TextMap::new();
    accumulate_tokens(&two_day_report(), &mut once);
    let mut twice: TextMap<TokenBreakdown> = TextMap::new();
    accumulate_tokens(
        &envelope(vec![vec![
            item(Some("opus"), 100, 10, 50, 1, 2),
            item(Some("sonnet"), 200, 0, 80, 0, 0),
        ]]),
        &mut twice,
    );
    accumulate_tokens(&envelope(vec![vec![item(Some("opus"), 300, 0, 40, 0, 0)]]), &mut twice);
    assert_eq!(once.get("opus"), twice.get("opus"));
    assert_eq!(once.get("sonnet"), twice.get("sonnet"));
}

#[test]
fn resolve_admin_key_empty_argv_errors() {
    let err = key_command(&Vec::new()).unwrap_err();
    assert!(err.message().contains("empty"), "got: {}", err.message());
    let (program, args) =
        key_command(&vec!["security".to_string(), "-s".to_string(), "x".to_string()]).unwrap();
    assert_eq!(program, "security");
    assert_eq!(args, ["-s", "x"]);
}

#[test]
fn a_key_is_what_a_command_prints() {
    assert_eq!(
        resolve_admin_key(true, 0, b"sk-ant-admin01-FAKE\n", b"").unwrap(),
        "sk-ant-admin01-FAKE"
    );
    assert_eq!(
        resolve_admin_key(true, 0, b" \n", b"").unwrap_err().message(),
        "admin_key_command produced no key on stdout"
    );
    assert_eq!(
        resolve_admin_key(false, 44, b"", b"locked\nsk-ant-oops").unwrap_err().message(),
        "admin_key_command failed (exit 44): locked"
    );
    assert_eq!(key_in_output("\tk ").unwrap(), "k");
}

#[test]
fn http_code_taxonomy_differentiates_401_403() {
    let msg_401 = report_failure(22, 401, "", "(no diagnostic output)").message().to_string();
    let msg_403 = report_failure(22, 403, "", "(no diagnostic output)").message().to_string();
    assert_eq!(msg_401, "Admin key invalid or expired (HTTP 401): (no diagnostic output)");
    assert_eq!(
        msg_403,
        "this account lacks Admin API access (individual account, non-admin role, or Bedrock/Vertex/Foundry) (HTTP 403): (no diagnostic output)"
    );
    assert!(msg_401.contains("invalid or expired"));
    assert!(msg_403.contains("lacks Admin API access"));
    assert_ne!(msg_401, msg_403);
    assert!(!msg_401.contains("sk-ant-"));
    assert!(!msg_403.contains("sk-ant-"));
}

#[test]
fn other_failures_have_their_own_words() {
    assert_eq!(
        report_failure(7, 0, "refused", "b").message(),
        "network error fetching the Admin API (curl exit 7): refused"
    );
    assert_eq!(
        report_failure(22, 500, "s", "boom").message(),
        "HTTP error 500 from the Admin API: boom"
    );
    assert_eq!(report_failure(3, 0, "s", "b").message(), "curl failed (exit 3): s");
    assert_eq!(
        report_parse_failure(200, "eof").message(),
        "failed to parse Admin API JSON (http 200): eof"
    );
}

#[test]
fn a_finished_curl_gives_body_and_status_or_a_message() {
    let (body, code) = curl_get(true, 0, b"{}\n200", b"").unwrap();
    assert_eq!((body.as_slice(), code), (b"{}".as_slice(), 200));
    assert_eq!(
        curl_get(false, 22, b"denied\n403", b"ignored").unwrap_err().message(),
        "this account lacks Admin API access (individual account, non-admin role, or Bedrock/Vertex/Foundry) (HTTP 403): denied"
    );
    assert_eq!(
        curl_get(false, 6, b"", b"no host").unwrap_err().message(),
        "network error fetching the Admin API (curl exit 6): no host"
    );
}

#[test]
fn split_http_code_peels_status() {
    let buf = b"{\"data\":[]}\n200";
    let (body, code) = split_http_code(buf);
    assert_eq!(code, 200);
    assert_eq!(body, b"{\"data\":[]}");

    let buf401 = b"{\"error\":\"x\"}\n401";
    let (_b, code401) = split_http_code(buf401);
    assert_eq!(code401, 401);

    let (body2, code2) = split_http_code(b"plain");
    assert_eq!(code2, 0);
    assert_eq!(body2, b"plain");
}

#[test]
fn split_http_code_needs_three_digits() {
    assert_eq!(split_http_code(b"x\n"), (b"x\n".as_slice(), 0));
    assert_eq!(split_http_code(b"x\n2a"), (b"x\n2a".as_slice(), 0));
    assert_eq!(split_http_code(b"x\n2a0"), (b"x\n2a0".as_slice(), 0));
    assert_eq!(split_http_code(b"body\n7"), (b"body\n7".as_slice(), 0));
    assert_eq!(split_http_code(b"x\n2000"), (b"x\n2000".as_slice(), 0));
    assert_eq!(split_http_code(b"x\n65535"), (b"x\n65535".as_slice(), 0));
    assert_eq!(split_http_code(b"x\n999"), (b"x".as_slice(), 999));
    assert_eq!(split_http_code(b"\n007"), (b"".as_slice(), 7));
    assert_eq!(split_http_code(b"200"), (b"200".as_slice(), 0));
}

#[test]
fn sanitize_drops_key_lines() {
    let raw = b"normal line\nleaked x-api-key: sk-ant-secret\nmore";
    let out = sanitize_stderr(raw);
    assert!(!out.contains("sk-ant-"));
    assert!(!out.contains("x-api-key"));
    assert!(out.contains("normal line"));
}

#[test]
fn sanitize_counts_characters() {
    let long = "ä".repeat(600);
    assert_eq!(sanitize_stderr(long.as_bytes()), format!("{}…", "ä".repeat(512)));
    let fits = "ä".repeat(512);
    assert_eq!(sanitize_stderr(fits.as_bytes()), fits);
}

#[test]
fn addresses_carry_the_window_and_the_page() {
    let w = utc_windows(0);
    let url = report_url("https://h/c", &cost_query(&w.today), None).unwrap();
    assert_eq!(
        url,
        "https://h/c?starting_at=1970-01-01T00:00:00Z&ending_at=1970-01-02T00:00:00Z&bucket_width=1d"
    );
    let url = report_url("https://h/u", &usage_query(&w.mtd), Some("p:1")).unwrap();
    assert!(url.ends_with("&bucket_width=1d&group_by=model&page=p:1"));
    assert_eq!(report_url("b", &Vec::new(), Some("t")).unwrap(), "b?page=t");
    assert!(report_url("b", &Vec::new(), Some("t\"")).is_err());
    assert_eq!(report_arguments()[9..], ["--write-out", "\n%{http_code}"]);
}

#[test]
fn the_next_page_follows_its_token() {
    let page = |more, token: Option<&str>| ReportEnvelope::<UsageItem> {
        data: Vec::new(),
        has_more: more,
        next_page: token.map(|t| t.to_string()),
    };
    assert_eq!(next_page_token(&page(true, Some("t")), 1).as_deref(), Some("t"));
    assert_eq!(next_page_token(&page(true, None), 1), None);
    assert_eq!(next_page_token(&page(false, Some("t")), 1), None);
    assert_eq!(next_page_token(&page(true, Some("t")), 1000), None);
}

#[test]
fn a_slice_is_stamped_with_version_and_zone() {
    let u = assemble_usage(
        "work",
        double(1.5),
        double(20.0),
        TextMap::new(),
        Timestamp { seconds: 5, nanos: 0 },
    );
    assert_eq!((u.schema_version, u.account.as_str(), u.tz.as_str()), (1, "work", "UTC"));
    assert_eq!(u.today_usd.text(2), "1.50");
}

#[test]
fn ant_usage_tests_utc_windows_today_mtd() {
    let now = chrono::Utc.with_ymd_and_hms(2026, 6, 14, 13, 45, 0).unwrap();
    let w = utc_windows(now.timestamp());
    assert!(w.today.starting_at.starts_with("2026-06-14T00:00:00"), "{}", w.today.starting_at);
    assert!(w.today.ending_at.starts_with("2026-06-15T00:00:00"), "{}", w.today.ending_at);
    assert!(w.mtd.starting_at.starts_with("2026-06-01T00:00:00"), "{}", w.mtd.starting_at);
    assert_eq!(w.mtd.ending_at, w.today.ending_at);
    assert!(w.today.starting_at.contains('T'));
    assert!(w.mtd.starting_at.contains('T'));
}

#[test]
fn sanitize_account_name() {
    for bad in ["../", "/", "", ".", "..", "a/b", "../../etc/foo"] {
        assert!(sanitize(bad).is_err(), "{bad:?} must be rejected");
    }
    for ok in ["work", "team-1", "acct.2"] {
        assert_eq!(sanitize(ok).expect("safe name"), ok, "{ok:?} must be accepted unchanged");
    }
}

#[test]
fn validate_page_token_test() {
    assert!(validate_page_token("2019-12-27T18:11:19.117Z").is_ok());
    assert!(validate_page_token("page_01H8xYz-abc.123").is_ok());
    assert!(validate_page_token("good\"\nurl = \"http://evil").is_err());
    assert!(validate_page_token("-K/etc/passwd").is_err());
    assert!(validate_page_token("a&b#c").is_err());
    assert!(validate_page_token("a b").is_err());
    assert!(validate_page_token("").is_err());
    assert!(validate_page_token(&"a".repeat(257)).is_err());
}

#[test]
fn tokens_by_model_accumulates_per_type() {
    let env = envelope(vec![
        vec![item(Some("opus"), 100, 10, 50, 1, 2), item(Some("sonnet"), 200, 0, 80, 0, 0)],
        vec![item(Some("opus"), 300, 0, 40, 0, 0)],
    ]);
    let mut acc = TextMap::new();
    accumulate_tokens(&env, &mut acc);
    let opus = acc.get("opus").expect("opus present");
    assert_eq!(opus.uncached_input, 400);
    assert_eq!(opus.cache_read_input, 10);
    assert_eq!(opus.output, 90);
    assert_eq!(opus.cache_creation_1h, 1);
    assert_eq!(opus.cache_creation_5m, 2);
    assert_eq!(opus.total(), 400 + 10 + 90 + 1 + 2);
    let sonnet = acc.get("sonnet").expect("sonnet present");
    assert_eq!(sonnet.total(), 200 + 80);
}
