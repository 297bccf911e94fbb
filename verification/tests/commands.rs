use statusline::ant::cache::{ModelEntry, ModelsCache, MODELS_CACHE_SCHEMA_VERSION};
use statusline::ant::config::{AntAccount, AntConfig};
use statusline::clock::Timestamp;
use statusline::commands::ant::{
    account_command, account_to_sync, divergence_note, divergences, doctor, doctor_lines,
    models_summary, probe_label, start_models_sync, start_usage_sync, usage_probe, usage_summary,
    DoctorFacts, SyncStart, UsageProbe,
};
use statusline::commands::list_vars::{group_of, list_vars_lines, VarGroup};
use statusline::double::Double;
use statusline::error::StatuslineError;
use statusline::layout::presets::{
    built_in_preset, get_preset_format, list_available_presets, load_user_preset, preset_file_name,
    PRESET_COMPACT, PRESET_DEFAULT, PRESET_DETAILED, PRESET_MINIMAL, PRESET_POWER,
};
use statusline::text_map::TextMap;

fn double(x: f64) -> Double {
    Double { bits: x.to_bits() }
}

fn cache_with(models: &[(&str, u64)]) -> ModelsCache {
    let mut map = TextMap::new();
    for (id, tokens) in models {
        map.insert(id.to_string(), ModelEntry { max_input_tokens: *tokens });
    }
    ModelsCache {
        schema_version: MODELS_CACHE_SCHEMA_VERSION,
        fetched_at: Timestamp { seconds: 0, nanos: 0 },
        models: map,
    }
}

fn overrides(pairs: &[(&str, usize)]) -> TextMap<usize> {
    let mut m = TextMap::new();
    for (k, v) in pairs {
        m.insert(k.to_string(), *v);
    }
    m
}

#[test]
fn differing_override_is_a_divergence() {
    let cache = cache_with(&[("model-x", 200_000)]);
    let ov = overrides(&[("model-x", 100_000)]);
    let div = divergences(&cache, &ov);
    assert_eq!(div.len(), 1);
    assert_eq!(div[0], ("model-x".to_string(), 200_000, 100_000));
}

#[test]
fn matching_override_is_not_a_divergence() {
    let cache = cache_with(&[("model-x", 200_000)]);
    let ov = overrides(&[("model-x", 200_000)]);
    assert!(divergences(&cache, &ov).is_empty());
}

#[test]
fn no_override_is_not_a_divergence() {
    let cache = cache_with(&[("model-x", 200_000)]);
    let ov = overrides(&[]);
    assert!(divergences(&cache, &ov).is_empty());
}

#[test]
fn cached_zero_is_not_a_divergence() {
    let cache = cache_with(&[("model-x", 0)]);
    let ov = overrides(&[("model-x", 100_000)]);
    assert!(divergences(&cache, &ov).is_empty());
}

#[test]
fn divergences_are_noted_one_by_one() {
    let cache = cache_with(&[("a", 1), ("b", 2), ("c", 3)]);
    let ov = overrides(&[("c", 4), ("a", 5), ("b", 2), ("d", 1)]);
    let div = divergences(&cache, &ov);
    assert_eq!(div, vec![("a".to_string(), 1, 5), ("c".to_string(), 3, 4)]);
    assert_eq!(
        divergence_note("a", 1, 5),
        "note: cached context window for a (1) differs from your [context.model_windows] override (5); the override wins at render time"
    );
}

fn message(r: Result<SyncStart, StatuslineError>) -> String {
    match r {
        Ok(SyncStart::Fetch) => "fetch".to_string(),
        Ok(SyncStart::Skip(m)) => m,
        Err(e) => e.message().to_string(),
    }
}

#[test]
fn a_fresh_cache_is_not_fetched_again() {
    assert_eq!(message(start_models_sync(None, Some(0))), "fetch");
    assert_eq!(
        message(start_models_sync(Some("6h"), Some(21_599))),
        "Models cache is fresh (within 6h); skipping fetch."
    );
    assert_eq!(message(start_models_sync(Some("6h"), Some(21_600))), "fetch");
    assert_eq!(message(start_models_sync(Some("6h"), None)), "fetch");
    assert_eq!(
        message(start_usage_sync("work", Some("1d"), Some(-5))),
        "Usage cache for ant account 'work' is fresh (within 1d); skipping fetch."
    );
    assert!(message(start_models_sync(Some("6"), Some(0))).contains("need a unit"));
    assert!(message(start_models_sync(Some("6w"), Some(0))).contains("unit 'w'"));
    assert!(message(start_models_sync(Some("h"), Some(0))).contains("number"));
}

fn ant_config() -> AntConfig {
    let mut c = AntConfig::default();
    c.enabled = true;
    c.accounts.insert(
        "work".to_string(),
        AntAccount { admin_key_command: vec!["print-key".to_string(), "--work".to_string()] },
    );
    c.accounts.insert("bare".to_string(), AntAccount::default());
    c
}

#[test]
fn an_account_needs_a_command() {
    let c = ant_config();
    assert_eq!(account_command(&c, "work").unwrap(), vec!["print-key", "--work"]);
    assert_eq!(
        account_command(&c, "bare").unwrap_err().message(),
        "ant account 'bare' has no admin_key_command configured (add [ant.accounts.bare].admin_key_command to enable usage sync)"
    );
    assert_eq!(
        account_command(&c, "none").unwrap_err().message(),
        "ant account 'none' is not configured (add an [ant.accounts.none] table with admin_key_command)"
    );
    assert_eq!(account_to_sync(Some("a"), Some("b")).unwrap(), "a");
    assert_eq!(account_to_sync(None, Some("b")).unwrap(), "b");
    assert!(account_to_sync(Some(""), Some("b")).is_err());
    assert_eq!(
        account_to_sync(None, None).unwrap_err().message(),
        "no active ant account: pass --account <name> or set STATUSLINE_ANT_ACCOUNT"
    );
}

#[test]
fn summaries_name_no_key() {
    assert_eq!(
        models_summary(1, "/c/models.json", "ant default auth"),
        vec![
            "Synced 1 model from the Models API.",
            "Cache: /c/models.json",
            "Credential source: ant default auth"
        ]
    );
    assert_eq!(models_summary(2, "", "")[0], "Synced 2 models from the Models API.");
    assert_eq!(
        usage_summary(
            "work",
            "/c/work.json",
            double(1.5),
            double(20.0),
            "UTC"
        ),
        vec![
            "Synced usage & cost for ant account 'work'.",
            "Cache: /c/work.json",
            "Credential source: admin_key_command (credential command)",
            "Today: $1.50 UTC   MTD: $20.00 UTC"
        ]
    );
}

fn doctor_facts(account: Option<&str>) -> DoctorFacts {
    DoctorFacts {
        ant_on_path: false,
        key_in_env: true,
        active_account: account.map(|a| a.to_string()),
        models_age: Some(60),
        usage_age: None,
        models_path: Some("/c/models.json".to_string()),
        usage_path: None,
        scanned: 1,
        clean: true,
        probes: None,
    }
}

#[test]
fn doctor_reports_source_labels_without_secrets() {
    let r = doctor(&ant_config(), doctor_facts(Some("work")));
    assert_eq!(r.models_credential, "ANTHROPIC_API_KEY (env)");
    assert_eq!(r.usage_credential.as_deref(), Some("admin_key_command (credential command)"));
    assert!(r.models_active && !r.usage_active);
    let human = doctor_lines(&r).join("\n");
    assert!(human.contains("Credentials") && human.contains("admin_key_command (credential command)"));
    assert!(!human.contains("sk-ant-"));
    assert!(!human.contains("print-key"));
    assert!(human.contains("  Accounts: bare, work\n"));
    assert!(human.contains("  Models: present, age 1m\n    /c/models.json\n"));
    assert!(human.contains("  Usage:  absent\n"));
    assert!(human.contains("(1 artifact scanned)"));
    assert!(human.ends_with("  not run (passive)"));
}

#[test]
fn the_doctor_reports_what_it_is_given() {
    let mut f = doctor_facts(None);
    f.clean = false;
    f.scanned = 2;
    f.models_age = Some(200_000);
    f.probes = Some(("up".to_string(), "down".to_string()));
    let r = doctor(&AntConfig::default(), f);
    assert!(r.models.stale && r.models.present && !r.models_active);
    assert!(r.usage_credential.is_none());
    let human = doctor_lines(&r).join("\n");
    assert!(human.contains("  Profile: (default)\n  Accounts: (none)\n  Active account: (none)\n"));
    assert!(human.contains("age 2d (stale)"));
    assert!(human.contains("(no active account)"));
    assert!(human.contains("key-shaped string found in an on-disk artifact (2 artifacts scanned)"));
    assert!(human.ends_with("  Models reachability: up\n  Usage reachability:  down"));
    let mut c = ant_config();
    c.profile = "p".to_string();
    assert_eq!(doctor(&c, doctor_facts(Some("bare"))).models_credential, "ant profile 'p'");
    assert_eq!(
        doctor(&c, doctor_facts(Some("bare"))).usage_credential.as_deref(),
        Some("not configured (account has no admin_key_command)")
    );
    assert_eq!(
        doctor(&c, doctor_facts(Some("x"))).usage_credential.as_deref(),
        Some("not configured (no [ant.accounts.x] table)")
    );
}

#[test]
fn a_probe_runs_only_a_configured_command() {
    let c = ant_config();
    assert!(matches!(usage_probe(&c, Some("work")), UsageProbe::Run(v) if v[0] == "print-key"));
    assert!(matches!(
        usage_probe(&c, Some("bare")),
        UsageProbe::Skip(m) if m == "skipped: no admin_key_command for the active account"
    ));
    assert!(matches!(usage_probe(&c, None), UsageProbe::Skip(m) if m == "skipped: no active account"));
    assert_eq!(probe_label(Ok("reachable".to_string())), "reachable");
    assert_eq!(probe_label(Err(StatuslineError::other("401"))), "error: 401");
}

#[test]
fn variables_are_listed_by_group() {
    assert_eq!(group_of("git_branch"), VarGroup::Git);
    assert_eq!(group_of("stats_daily"), VarGroup::Stats);
    assert_eq!(group_of("gsd_phase"), VarGroup::Gsd);
    assert_eq!(group_of("statsx"), VarGroup::Other);
    let mut p = TextMap::new();
    p.insert("stats_b".to_string(), "x\"y\n".to_string());
    p.insert("stats_a".to_string(), "".to_string());
    p.insert("git".to_string(), "main".to_string());
    let mut core = TextMap::new();
    core.insert("directory".to_string(), "/x".to_string());
    let lines = list_vars_lines(true, &p, &core, "{directory}", Some("/u/t.tmpl"), false);
    assert_eq!(
        lines,
        vec![
            "Template Variables",
            "==================",
            "(Colors disabled)",
            "",
            "=== git ===",
            "  git = \"main\"",
            "",
            "=== stats ===",
            "  stats_a = (empty)",
            "  stats_b = \"x\\\"y\\n\"",
            "",
            "=== core ===",
            "  directory = \"/x\"",
            "",
            "=== template ===",
            "  Default template: {directory}",
            "  User override:    /u/t.tmpl (not found, using default)",
            ""
        ]
    );
    let bare = list_vars_lines(false, &TextMap::new(), &TextMap::new(), "t", None, false);
    assert_eq!(bare.len(), 6);
}

#[test]
fn presets_are_found_by_name() {
    assert_eq!(get_preset_format("Compact", None), PRESET_COMPACT);
    assert_eq!(get_preset_format("detailed", None), PRESET_DETAILED);
    assert_eq!(get_preset_format("MINIMAL", None), PRESET_MINIMAL);
    assert_eq!(get_preset_format("power", None), PRESET_POWER);
    assert_eq!(get_preset_format("anything", None), PRESET_DEFAULT);
    assert_eq!(get_preset_format("power", Some("mine".to_string())), "mine");
    assert_eq!(built_in_preset("Compact"), PRESET_DEFAULT);
    assert_eq!(preset_file_name("MyPreset"), "mypreset.toml");
}

#[test]
fn user_presets_are_read_from_toml() {
    assert_eq!(load_user_preset("format = \"{model}\"").as_deref(), Some("{model}"));
    assert_eq!(
        load_user_preset("format = \"{model}\"\nseparator = \"|\"").as_deref(),
        Some("{model}")
    );
    assert_eq!(load_user_preset("format = 3"), None);
    assert_eq!(load_user_preset("format = \"x\"\nseparator = 3"), None);
    assert_eq!(load_user_preset("separator = \"|\""), None);
    assert_eq!(load_user_preset("format = "), None);
}

#[test]
fn presets_are_listed_once() {
    let stems = vec!["Mine".to_string(), "POWER".to_string(), "mine".to_string()];
    assert_eq!(
        list_available_presets(&stems),
        vec!["default", "compact", "detailed", "minimal", "power", "mine"]
    );
}
