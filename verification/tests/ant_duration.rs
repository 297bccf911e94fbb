use statusline::ant::duration::{humanize_age, is_fresh, is_stale, parse_max_age};

#[test]
fn parse_accepts_each_unit() {
    assert_eq!(parse_max_age("90s").unwrap(), 90);
    assert_eq!(parse_max_age("10m").unwrap(), 600);
    assert_eq!(parse_max_age("24h").unwrap(), 86_400);
    assert_eq!(parse_max_age("2d").unwrap(), 172_800);
}

#[test]
fn parse_trims_whitespace() {
    assert_eq!(parse_max_age("  10m  ").unwrap(), 600);
}

#[test]
fn parse_rejects_empty() {
    assert!(parse_max_age("").is_err());
}

#[test]
fn parse_rejects_non_numeric() {
    assert!(parse_max_age("abc").is_err());
}

#[test]
fn parse_rejects_unknown_unit() {
    assert!(parse_max_age("10x").is_err());
}

#[test]
fn parse_rejects_bare_unit() {
    assert!(parse_max_age("m").is_err());
}

#[test]
fn parse_messages_name_the_fault() {
    assert_eq!(
        parse_max_age(" 15 ").unwrap_err().message(),
        "invalid --max-age '15' (need a unit: s/m/h/d)"
    );
    assert_eq!(parse_max_age("m").unwrap_err().message(), "invalid --max-age number in 'm'");
    assert_eq!(
        parse_max_age("10x").unwrap_err().message(),
        "invalid --max-age unit 'x' (use s/m/h/d)"
    );
    assert_eq!(
        parse_max_age("10mm").unwrap_err().message(),
        "invalid --max-age unit 'mm' (use s/m/h/d)"
    );
}

#[test]
fn parse_refuses_what_does_not_fit() {
    assert_eq!(parse_max_age("18446744073709551615s").unwrap(), u64::MAX);
    assert!(parse_max_age("18446744073709551616s").is_err());
    assert_eq!(
        parse_max_age("18446744073709551615m").unwrap_err().message(),
        "invalid --max-age number in '18446744073709551615m'"
    );
}

#[test]
fn humanize_under_a_minute() {
    assert_eq!(humanize_age(chrono::Duration::seconds(30).num_seconds()), "<1m");
}

#[test]
fn humanize_minutes_hours_days() {
    assert_eq!(humanize_age(chrono::Duration::seconds(600).num_seconds()), "10m");
    assert_eq!(humanize_age(chrono::Duration::seconds(7200).num_seconds()), "2h");
    assert_eq!(humanize_age(chrono::Duration::days(3).num_seconds()), "3d");
}

#[test]
fn humanize_negative_is_clock_skew_safe() {
    assert_eq!(humanize_age(chrono::Duration::seconds(-5).num_seconds()), "<1m");
}

#[test]
fn staleness_starts_at_the_threshold() {
    assert!(!is_stale(1799, "30m"));
    assert!(is_stale(1800, "30m"));
    assert!(!is_stale(-1, "0s"));
    assert!(is_stale(0, "0s"));
    assert!(!is_stale(1_000_000, "soon"));
}

#[test]
fn a_young_cache_skips_the_fetch() {
    assert!(is_fresh(Some(600), Some(599)));
    assert!(!is_fresh(Some(600), Some(600)));
    assert!(is_fresh(Some(600), Some(-5)));
    assert!(!is_fresh(Some(0), Some(-5)));
    assert!(!is_fresh(Some(600), None));
    assert!(!is_fresh(None, Some(1)));
}
