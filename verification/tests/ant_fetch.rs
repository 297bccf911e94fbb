use statusline::ant::config::AntConfig;
use statusline::ant::diagnostics::STDERR_BOUND;
use statusline::ant::fetch::{
    ant_arguments, ant_environment, ant_failure, choose_transport, curl_arguments, curl_config,
    curl_failure, finish_fetch, models_url, page_parse_failure, profile_note, sanitize_stderr,
    ApiModel, CredentialMode, ModelsFetch, ModelsPage, Transport, PAGE_LIMIT,
};
use statusline::clock::Timestamp;

fn cfg_with_profile(p: &str) -> AntConfig {
    AntConfig { enabled: true, profile: p.to_string(), ..AntConfig::default() }
}

fn page(models: &[(&str, u64)], has_more: bool, last_id: Option<&str>) -> ModelsPage {
    ModelsPage {
        data: models
            .iter()
            .map(|(id, n)| ApiModel { id: id.to_string(), max_input_tokens: *n })
            .collect(),
        has_more,
        last_id: last_id.map(|s| s.to_string()),
    }
}

#[test]
fn profile_set_resolves_to_profile_mode() {
    let mode = CredentialMode::resolve(&cfg_with_profile("work"), true);
    assert!(matches!(&mode, CredentialMode::Profile(p) if p == "work"));
    assert_eq!(mode.label(), "ant profile 'work'");
}

#[test]
fn env_key_resolves_to_env_mode() {
    let mode = CredentialMode::resolve(&cfg_with_profile(""), true);
    assert!(matches!(mode, CredentialMode::EnvKey));
    assert_eq!(mode.label(), "ANTHROPIC_API_KEY (env)");
}

#[test]
fn neither_resolves_to_default_auth_not_error() {
    let mode = CredentialMode::resolve(&cfg_with_profile(""), false);
    assert!(matches!(mode, CredentialMode::DefaultAuth));
    assert_eq!(mode.label(), "ant default auth");
}

#[test]
fn profile_command_sets_ant_profile_and_removes_key_no_argv_key() {
    let mode = CredentialMode::Profile("work".to_string());
    let env = ant_environment(&mode);
    assert_eq!(env.profile.as_deref(), Some("work"));
    assert!(env.remove_key);
    let args = ant_arguments(PAGE_LIMIT, None);
    assert_eq!(args, ["models", "list", "--raw-output", "--limit", "1000"]);
    assert!(!args.iter().any(|a| a.contains("sk-ant-")));
    let inherited = ant_environment(&CredentialMode::EnvKey);
    assert!(inherited.profile.is_none() && !inherited.remove_key);
    assert_eq!(ant_arguments(PAGE_LIMIT, Some("m"))[5..], ["--after-id", "m"]);
}

#[test]
fn two_pages_accumulate_into_one_map() {
    let page1 = page(&[("model-a", 100)], true, Some("model-a"));
    let page2 = page(&[("model-b", 200)], false, None);
    let mut fetch = ModelsFetch::start();
    assert!(fetch.accept(&page1));
    assert_eq!(fetch.after_id.as_deref(), Some("model-a"));
    assert!(!fetch.accept(&page2));
    assert_eq!(fetch.models.len(), 2);
    assert_eq!(fetch.models.get("model-a").unwrap().max_input_tokens, 100);
    assert_eq!(fetch.models.get("model-b").unwrap().max_input_tokens, 200);
    assert_eq!(fetch.pages, 2);
}

#[test]
fn pagination_stops_without_a_cursor_and_at_the_cap() {
    let mut fetch = ModelsFetch::start();
    assert!(!fetch.accept(&page(&[("a", 1)], true, None)));
    let mut long = ModelsFetch::start();
    let endless = page(&[("a", 1)], true, Some("a"));
    let mut n = 1;
    while long.accept(&endless) {
        n += 1;
    }
    assert_eq!(n, 1000);
    assert_eq!(long.pages, 1000);
}

#[test]
fn the_later_of_two_entries_stays() {
    let mut fetch = ModelsFetch::start();
    fetch.accept(&page(&[("a", 1), ("b", 2), ("a", 3)], false, None));
    assert_eq!(fetch.models.len(), 2);
    assert_eq!(fetch.models.get("a").unwrap().max_input_tokens, 3);
}

#[test]
fn missing_max_input_tokens_defaults_to_zero() {
    let mut fetch = ModelsFetch::start();
    fetch.accept(&page(&[("mystery-model", 0)], false, None));
    assert_eq!(fetch.models.get("mystery-model").unwrap().max_input_tokens, 0);
}

#[test]
fn parse_failure_and_no_credential_have_distinct_messages() {
    let parse_err = page_parse_failure("expected ident").message().to_string();
    assert!(parse_err.contains("parse"));
    let no_cred =
        choose_transport(&CredentialMode::DefaultAuth, false, true).unwrap_err().message().to_string();
    assert!(no_cred.contains("credential"));
    assert_ne!(parse_err, no_cred);
}

#[test]
fn the_tool_is_preferred_and_curl_needs_the_key() {
    let profile = CredentialMode::Profile("w".to_string());
    assert_eq!(choose_transport(&profile, true, false).unwrap(), Transport::Ant);
    assert!(choose_transport(&profile, false, true).is_err());
    assert_eq!(choose_transport(&CredentialMode::EnvKey, false, true).unwrap(), Transport::Curl);
    let none = choose_transport(&CredentialMode::EnvKey, false, false).unwrap_err();
    assert!(none.message().contains("no fetch tool available"));
}

#[test]
fn the_key_goes_to_standard_input_only() {
    let config = curl_config("sk-ant-curlkey", &models_url(PAGE_LIMIT, Some("model-a")));
    assert_eq!(
        config,
        "header = \"x-api-key: sk-ant-curlkey\"\nheader = \"anthropic-version: 2023-06-01\"\nurl = \"https://api.anthropic.com/v1/models?limit=1000&after_id=model-a\"\n"
    );
    assert!(!curl_arguments().iter().any(|a| a.contains("sk-ant-")));
    assert_eq!(models_url(PAGE_LIMIT, None), "https://api.anthropic.com/v1/models?limit=1000");
    assert_eq!(models_url(1, None), "https://api.anthropic.com/v1/models?limit=1");
    assert_eq!(ant_arguments(1, None)[3..], ["--limit", "1"]);
}

#[test]
fn curl_exit_codes_are_told_apart() {
    assert_eq!(
        curl_failure(28, "late").message(),
        "network error fetching the Models API (curl exit 28): late"
    );
    assert_eq!(
        curl_failure(22, "no").message(),
        "HTTP error from the Models API (curl exit 22): no"
    );
    assert_eq!(curl_failure(-1, "x").message(), "curl failed (exit -1): x");
    assert_eq!(
        ant_failure("x").message(),
        "`ant models list` failed (auth or credential error): x"
    );
}

#[test]
fn sanitize_drops_key_lines_and_bounds_length() {
    let raw = b"normal diagnostic line\nleaked: x-api-key: sk-ant-secret\nmore";
    let out = sanitize_stderr(raw);
    assert!(!out.contains("sk-ant-"));
    assert!(!out.contains("x-api-key"));
    assert!(out.contains("normal diagnostic"));
    assert_eq!(out, "normal diagnostic line more");

    let long = vec![b'a'; STDERR_BOUND + 100];
    let bounded = sanitize_stderr(&long);
    assert!(bounded.chars().count() <= STDERR_BOUND + 1);
    assert_eq!(bounded, format!("{}…", "a".repeat(STDERR_BOUND)));
}

#[test]
fn sanitize_cuts_between_characters() {
    let long = "ä".repeat(300);
    assert_eq!(sanitize_stderr(long.as_bytes()), format!("{}…", "ä".repeat(256)));
    let odd = format!("a{}", "ä".repeat(300));
    assert_eq!(sanitize_stderr(odd.as_bytes()), format!("a{}…", "ä".repeat(255)));
    assert_eq!(sanitize_stderr(b"  \r\n\n "), "(no diagnostic output)");
    assert_eq!(sanitize_stderr(b"a\xffb"), "a\u{fffd}b");
    assert_eq!(sanitize_stderr(b"one\r\nAPI-KEY here\r\ntwo"), "one two");
}

#[test]
fn a_finished_fetch_is_stamped() {
    let mut fetch = ModelsFetch::start();
    fetch.accept(&page(&[("a", 1)], false, None));
    let out = finish_fetch(
        &CredentialMode::EnvKey,
        fetch.models,
        Timestamp { seconds: 7, nanos: 0 },
    );
    assert_eq!(out.cache.schema_version, 1);
    assert_eq!(out.cache.models.len(), 1);
    assert_eq!(out.credential_source, "ANTHROPIC_API_KEY (env)");
    assert_eq!(
        profile_note(&CredentialMode::Profile("w".to_string())).unwrap(),
        "note: selecting ant profile 'w' is best-effort (ANT_PROFILE); verify your ant version honors it"
    );
    assert!(profile_note(&CredentialMode::EnvKey).is_none());
}
