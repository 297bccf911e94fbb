use statusline::ant::audit::{is_clean, scan_artifacts_for_keys, Artifact, KEY_PATTERN};
use statusline::ant::cache::{
    ensure_cache_dir, ensure_usage_cache_dir, models_cache_path, sanitize_account_name,
    usage_cache_path, ModelEntry, ModelsCache, TokenBreakdown, UsageCache, MAX_ACCOUNT_NAME_LEN,
    MODELS_CACHE_SCHEMA_VERSION, USAGE_CACHE_SCHEMA_VERSION,
};
use statusline::ant::config::{AntAccount, AntConfig};
use statusline::clock::Timestamp;
use statusline::double::Double;
use statusline::text_map::TextMap;

fn double(x: f64) -> Double {
    Double { bits: x.to_bits() }
}

fn at(seconds: i64, nanos: u32) -> Timestamp {
    Timestamp { seconds, nanos }
}

fn models(version: u32) -> ModelsCache {
    let mut m = TextMap::new();
    m.insert("model-x".to_string(), ModelEntry { max_input_tokens: 200_000 });
    ModelsCache { schema_version: version, fetched_at: at(100, 500), models: m }
}

#[test]
fn sanitize_rejects_traversal_and_separators() {
    for bad in ["../../etc/foo", "a/b", "", ".", "..", "a\\b", "a b", "a\0b"] {
        assert!(sanitize_account_name(bad).is_err(), "{bad:?} must be rejected");
    }
    assert!(sanitize_account_name(&"a".repeat(MAX_ACCOUNT_NAME_LEN + 1)).is_err());
}

#[test]
fn sanitize_accepts_safe_names() {
    for ok in ["work", "team-1", "acct.2", "A_b.C-9"] {
        assert_eq!(sanitize_account_name(ok).unwrap(), ok);
    }
}

#[test]
fn sanitize_says_why() {
    let said = |n: &str| sanitize_account_name(n).unwrap_err().message().to_string();
    assert_eq!(said(""), "ant account name must not be empty");
    assert_eq!(said(".."), "ant account name must not be '.' or '..'");
    assert_eq!(
        said("a/b"),
        "ant account name 'a/b' contains disallowed characters (allowed: A-Za-z0-9._-)"
    );
    assert_eq!(said(&"ä".repeat(65)), "ant account name exceeds 128 chars");
    assert!(said(&"ä".repeat(64)).contains("disallowed"));
    assert!(sanitize_account_name(&"a".repeat(128)).is_ok());
}

#[test]
fn token_breakdown_total_sums_all_fields() {
    let tb = TokenBreakdown {
        uncached_input: 1,
        cache_read_input: 2,
        cache_creation_1h: 4,
        cache_creation_5m: 8,
        output: 16,
    };
    assert_eq!(tb.total(), 31);
}

#[test]
fn token_breakdown_total_stops_at_the_largest() {
    let tb = TokenBreakdown { uncached_input: u64::MAX, output: 7, ..TokenBreakdown::default() };
    assert_eq!(tb.total(), u64::MAX);
}

#[test]
fn usage_path_is_under_usage_subdir_and_has_no_traversal() {
    let p = usage_cache_path(Some("/home/x/.cache"), "work").expect("safe name resolves");
    assert_eq!(p, "/home/x/.cache/claudia-statusline/ant/usage/work.json");
    assert!(p.ends_with("ant/usage/work.json"), "got {p:?}");
    assert!(!p.contains(".."), "no traversal segment in {p:?}");
    assert!(usage_cache_path(Some("/home/x/.cache"), "../escape").is_err());
}

#[test]
fn cache_paths_hang_below_the_cache_directory() {
    assert_eq!(
        models_cache_path(Some("/c")).unwrap(),
        "/c/claudia-statusline/ant/models.json"
    );
    assert_eq!(ensure_cache_dir(Some("/c/")).unwrap(), "/c/claudia-statusline/ant");
    assert_eq!(ensure_usage_cache_dir(Some("/c")).unwrap(), "/c/claudia-statusline/ant/usage");
    assert_eq!(
        models_cache_path(None).unwrap_err().message(),
        "Cannot determine cache directory"
    );
    assert_ne!(
        usage_cache_path(Some("/c"), "a").unwrap(),
        usage_cache_path(Some("/c"), "b").unwrap()
    );
}

#[test]
fn only_the_current_format_is_read() {
    assert!(models(MODELS_CACHE_SCHEMA_VERSION).accepted().is_some());
    assert!(models(MODELS_CACHE_SCHEMA_VERSION + 1).accepted().is_none());
    assert!(models(0).accepted().is_none());
    let usage = |v| UsageCache {
        schema_version: v,
        fetched_at: at(0, 0),
        account: "work".to_string(),
        today_usd: double(0.0),
        mtd_usd: double(0.0),
        tz: "UTC".to_string(),
        tokens_by_model: TextMap::new(),
    };
    assert!(usage(USAGE_CACHE_SCHEMA_VERSION).accepted().is_some());
    assert!(usage(USAGE_CACHE_SCHEMA_VERSION + 1).accepted().is_none());
    assert_eq!(usage(1).age(at(90, 0)), 90);
}

#[test]
fn age_is_rounded_down() {
    assert_eq!(models(1).age(at(160, 500)), 60);
    assert_eq!(models(1).age(at(160, 499)), 59);
    assert_eq!(models(1).age(at(100, 0)), -1);
}

#[test]
fn default_is_disabled_with_empty_profile() {
    let cfg = AntConfig::default();
    assert!(!cfg.enabled);
    assert!(cfg.profile.is_empty());
}

#[test]
fn default_accounts_is_empty() {
    let cfg = AntConfig::default();
    assert!(cfg.accounts.is_empty(), "accounts must default to empty");
    assert!(!cfg.enabled);
}

#[test]
fn account_default_admin_key_command_is_empty() {
    assert!(AntAccount::default().admin_key_command.is_empty());
}

#[test]
fn default_staleness_thresholds() {
    let cfg = AntConfig::default();
    assert_eq!(cfg.usage_stale_after, "30m");
    assert_eq!(cfg.models_stale_after, "48h");
}

fn finding(text: &str) -> bool {
    let files = vec![Artifact { path: "f".to_string(), text: Some(text.to_string()) }];
    scan_artifacts_for_keys(&files)[0].matched
}

#[test]
fn key_pattern_compiles_and_matches_both_families() {
    let re = regex::Regex::new(KEY_PATTERN).expect("valid regex");
    assert!(re.is_match("sk-ant-api03-AbC_123"), "api family must match");
    assert!(re.is_match("sk-ant-admin01-XyZ-789"), "admin01 family must match");
    assert!(!re.is_match("not-a-key"), "a non-key must not match");
}

#[test]
fn key_pattern_matches_both_families() {
    assert!(finding("sk-ant-api03-AbC_123"));
    assert!(finding("{\"x\": \"sk-ant-admin01-XyZ-789\"}"));
    assert!(!finding("not-a-key"));
    assert!(!finding("sk-ant-"));
    assert!(!finding("sk-ant- x"));
    assert!(finding("sk-ant-sk-ant-"));
    assert!(!finding("SK-ANT-abc"));
}

#[test]
fn unreadable_files_are_left_out_of_a_scan() {
    let files = vec![
        Artifact { path: "a".to_string(), text: Some("clean".to_string()) },
        Artifact { path: "b".to_string(), text: None },
        Artifact { path: "c".to_string(), text: Some("sk-ant-q".to_string()) },
    ];
    let found = scan_artifacts_for_keys(&files);
    assert_eq!(found.len(), 2);
    assert_eq!((found[0].path.as_str(), found[0].matched), ("a", false));
    assert_eq!((found[1].path.as_str(), found[1].matched), ("c", true));
    assert!(!is_clean(&found));
    assert!(is_clean(&scan_artifacts_for_keys(&Vec::new())));
}
