use statusline::agents::{AgentsSummary, TranscriptTotals};
use statusline::ant::cache::{ModelsCache, TokenBreakdown, UsageCache};
use statusline::ant::config::AntConfig;
use statusline::clock::Timestamp;
use statusline::config::{
    BurnRateConfig, ComponentsConfig, ContextComponentConfig, CostComponentConfig,
    DirectoryComponentConfig, DisplayConfig, GitComponentConfig, LayoutConfig, LineConfig,
    ModelComponentConfig, Thresholds, TokenRateComponentConfig, TokenRateConfig,
};
use statusline::display::colors::{choose_theme, Colors, Theme};
use statusline::display::context::{
    context_usage_from_payload, format_context_bar, format_raw_bar, CompactionState, ContextUsage,
    ContextWindow,
};
use statusline::display::enrichment::{enrichment, Enrichment};
use statusline::display::line::{
    format_statusline_string, session_burn_rate, Cost, GitFacts, LineFacts, ModelFacts,
    PayloadExtras, Repo,
};
use statusline::display::output::{format_output_to_string, format_statusline_with_layout};
use statusline::display::pieces::{
    format_duration, format_rate_limits, format_reset_countdown, PromptCache, RateLimitWindow,
    RateLimits,
};
use statusline::display::rates::format_token_count_for_display;
use statusline::display::template::{git_status_words, layout_variables};
use statusline::double::Double;
use statusline::layout::format::{format_rate_with_unit, rate_unit};
use statusline::layout::variables::VariableBuilder;
use statusline::models::{Effort, Model, StatuslineInput, Workspace};
use statusline::render::{home_only, render_statusline, Surroundings};
use statusline::text_map::TextMap;
use statusline::utils::{sanitize_for_terminal, shorten_path};

fn double(x: f64) -> Double {
    Double { bits: x.to_bits() }
}

fn s(t: &str) -> String {
    t.to_string()
}

fn thresholds() -> Thresholds {
    Thresholds {
        cost_low: double(5.0),
        cost_medium: double(20.0),
        context_caution: double(50.0),
        context_warning: double(70.0),
        context_critical: double(90.0),
    }
}

fn colors(on: bool) -> Colors {
    Colors { on, theme: Theme::named("dark"), thresholds: thresholds() }
}

fn config(format: &str, preset: &str) -> LineConfig {
    LineConfig {
        display: DisplayConfig {
            show_directory: true,
            show_git: true,
            show_context: true,
            show_model: true,
            show_duration: true,
            show_lines_changed: true,
            show_cost: true,
            show_agents: true,
            show_prompt_cache: true,
            show_rate_limits: true,
            rate_limit_reset_countdown: false,
            show_context_tokens: false,
            progress_bar_width: 10,
        },
        burn_rate: BurnRateConfig {
            mode: s("wall_clock"),
            inactivity_threshold_minutes: 60,
            min_duration_seconds: 60,
        },
        token_rate: TokenRateConfig {
            display_mode: s("summary"),
            rate_display: s("both"),
            cache_metrics: true,
        },
        layout: LayoutConfig {
            format: s(format),
            preset: s(preset),
            separator: s(" | "),
            show_unknown_vars: false,
            components: ComponentsConfig {
                directory: DirectoryComponentConfig {
                    format: s("short"),
                    max_length: 0,
                    color: s(""),
                },
                git: GitComponentConfig { format: s("full"), show_when: s("always"), color: s("") },
                context: ContextComponentConfig { format: s("full"), show_tokens: false },
                model: ModelComponentConfig { format: s("abbreviation"), color: s("") },
                cost: CostComponentConfig { format: s("full"), color: s("") },
                token_rate: TokenRateComponentConfig {
                    format: s("rate_only"),
                    time_unit: s("second"),
                    color: s(""),
                    show_session_total: false,
                    show_daily_total: false,
                },
            },
        },
        context_threshold: double(80.0),
    }
}

fn usage(percentage: f64, approaching: bool, remaining: u64, state: CompactionState) -> ContextUsage {
    ContextUsage {
        percentage: double(percentage),
        approaching_limit: approaching,
        tokens_remaining: remaining,
        compaction_state: state,
    }
}

fn number(x: Double) -> f64 {
    f64::from_bits(x.bits)
}

fn bar_of(u: &ContextUsage) -> String {
    format_context_bar(&colors(true), u, None, None, 10, false)
}

#[test]
fn test_theme_affects_colors() {
    let themed = |variable: &str| {
        let theme = Theme::named(choose_theme(None, Some(variable), None));
        Colors { on: Colors::enabled(Some(true), false), theme, thresholds: thresholds() }
    };
    assert!(Colors::enabled(Some(true), false), "color override should force colors enabled");
    assert_eq!(themed("light").text_color(), "\x1b[90m");
    assert_eq!(themed("light").separator_color(), "\x1b[90m");
    assert_eq!(themed("dark").text_color(), "\x1b[37m");
    assert_eq!(themed("dark").separator_color(), "\x1b[38;5;245m");
}

#[test]
fn the_theme_is_chosen_in_order() {
    assert_eq!(choose_theme(Some("a"), Some("b"), Some("c")), "a");
    assert_eq!(choose_theme(None, Some("b"), Some("c")), "b");
    assert_eq!(choose_theme(None, None, Some("c")), "c");
    assert_eq!(choose_theme(None, None, None), "dark");
    assert_eq!(Theme::named("unheard of").separator, Theme::named("dark").separator);
}

#[test]
fn test_format_rate_limits() {
    let now = 1_000_000;
    let rl = RateLimits {
        five_hour: Some(RateLimitWindow {
            used_percentage: Some(double(23.5)),
            resets_at: Some(now + 8000),
        }),
        seven_day: Some(RateLimitWindow {
            used_percentage: Some(double(41.2)),
            resets_at: Some(now + 280_800),
        }),
    };
    assert_eq!(format_rate_limits(&rl, now, false).as_deref(), Some("5h:24% 7d:41%"));
    assert_eq!(
        format_rate_limits(&rl, now, true).as_deref(),
        Some("5h:24% (2h13m) 7d:41% (3d6h)")
    );
    let rl_one = RateLimits {
        five_hour: Some(RateLimitWindow { used_percentage: Some(double(10.0)), resets_at: None }),
        seven_day: None,
    };
    assert_eq!(format_rate_limits(&rl_one, now, true).as_deref(), Some("5h:10%"));
    let rl_empty = RateLimits { five_hour: None, seven_day: None };
    assert!(format_rate_limits(&rl_empty, now, true).is_none());
}

#[test]
fn test_format_reset_countdown() {
    let now = 1_000_000;
    assert_eq!(format_reset_countdown(now + 8000, now).as_deref(), Some("2h13m"));
    assert_eq!(format_reset_countdown(now + 280_800, now).as_deref(), Some("3d6h"));
    assert_eq!(format_reset_countdown(now + 2700, now).as_deref(), Some("45m"));
    assert_eq!(format_reset_countdown(now + 30, now).as_deref(), Some("<1m"));
    assert!(format_reset_countdown(now, now).is_none());
    assert!(format_reset_countdown(now - 100, now).is_none());
}

#[test]
fn test_session_meta_variables() {
    let vars = VariableBuilder::new()
        .session_meta(
            Some("xhigh"),
            Some("2.1.90"),
            true,
            Some("hagan"),
            Some("claudia-statusline"),
            "",
            "",
        )
        .build();
    assert_eq!(vars.get("effort").map(String::as_str), Some("xhigh"));
    assert_eq!(vars.get("cc_version").map(String::as_str), Some("v2.1.90"));
    assert_eq!(vars.get("over_200k").map(String::as_str), Some("200k+"));
    assert_eq!(vars.get("repo").map(String::as_str), Some("hagan/claudia-statusline"));

    let empty = VariableBuilder::new().session_meta(None, None, false, None, None, "", "").build();
    assert!(!empty.contains_key("effort"));
    assert!(!empty.contains_key("over_200k"));
    assert!(!empty.contains_key("repo"));
}

#[test]
fn test_context_usage_from_payload() {
    let cw = ContextWindow {
        total_input_tokens: Some(15500),
        total_output_tokens: Some(1200),
        context_window_size: Some(200000),
        used_percentage: Some(double(8.0)),
        remaining_percentage: Some(double(92.0)),
    };
    let (ctx, tokens, window) = context_usage_from_payload(&cw, double(80.0)).unwrap();
    assert_eq!(ctx.percentage, double(8.0));
    assert_eq!(tokens, Some(15500));
    assert_eq!(window, Some(200000));

    let cw_derived = ContextWindow {
        total_input_tokens: Some(176_000),
        total_output_tokens: None,
        context_window_size: Some(1_000_000),
        used_percentage: None,
        remaining_percentage: None,
    };
    let (ctx, tokens, window) = context_usage_from_payload(&cw_derived, double(80.0)).unwrap();
    assert!((number(ctx.percentage) - 17.6).abs() < 0.01);
    assert_eq!(tokens, Some(176_000));
    assert_eq!(window, Some(1_000_000));

    let cw_unpopulated = ContextWindow {
        total_input_tokens: None,
        total_output_tokens: None,
        context_window_size: Some(200000),
        used_percentage: None,
        remaining_percentage: None,
    };
    assert!(context_usage_from_payload(&cw_unpopulated, double(80.0)).is_none());
}

#[test]
fn test_color_override_forces_state_regardless_of_no_color() {
    assert!(Colors::enabled(Some(true), true));
    assert!(!Colors::enabled(Some(false), false));
    assert!(Colors::enabled(None, false));
    assert!(!Colors::enabled(None, true));
}

#[test]
fn test_colors() {
    let on = colors(true);
    assert_eq!(on.cyan(), "\x1b[36m");
    assert_eq!(on.green(), "\x1b[32m");
    assert_eq!(on.red(), "\x1b[31m");
    assert_eq!(on.yellow(), "\x1b[33m");
    assert_eq!(on.reset(), "\x1b[0m");
    let off = colors(false);
    assert_eq!(off.cyan(), "");
    assert_eq!(off.green(), "");
    assert_eq!(off.red(), "");
    assert_eq!(off.yellow(), "");
    assert_eq!(off.reset(), "");
}

#[test]
fn test_get_cost_color() {
    let on = colors(true);
    let low_cost = on.cost_color(double(2.5));
    let medium_cost = on.cost_color(double(10.0));
    let high_cost = on.cost_color(double(25.0));
    assert!(low_cost.starts_with("\x1b["));
    assert!(medium_cost.starts_with("\x1b["));
    assert!(high_cost.starts_with("\x1b["));
    assert_ne!(low_cost, medium_cost);
    assert_ne!(medium_cost, high_cost);
    assert_ne!(low_cost, high_cost);
    let off = colors(false);
    assert_eq!(off.cost_color(double(2.5)), String::new());
    assert_eq!(off.cost_color(double(10.0)), String::new());
    assert_eq!(off.cost_color(double(25.0)), String::new());
}

#[test]
fn cost_colours_change_at_their_thresholds() {
    let on = colors(true);
    assert_eq!(on.cost_color(double(4.999999999)), "\x1b[32m");
    assert_eq!(on.cost_color(double(5.0)), "\x1b[33m");
    assert_eq!(on.cost_color(double(19.999999999)), "\x1b[33m");
    assert_eq!(on.cost_color(double(20.0)), "\x1b[31m");
    assert_eq!(on.context_color(double(50.0)), "\x1b[37m");
    assert_eq!(on.context_color(double(50.1)), "\x1b[33m");
    assert_eq!(on.context_color(double(70.1)), "\x1b[38;5;208m");
    assert_eq!(on.context_color(double(90.1)), "\x1b[31m");
}

#[test]
fn test_format_duration() {
    assert_eq!(format_duration(45), "45s");
    assert_eq!(format_duration(90), "1m");
    assert_eq!(format_duration(3665), "1h1m");
}

#[test]
fn test_format_context_bar() {
    let low = usage(10.0, false, 180_000, CompactionState::Normal);
    let bar = bar_of(&low);
    assert!(bar.contains("10%"));
    assert!(bar.contains("[=>"));
    assert!(!bar.contains('•'));
    assert!(!bar.contains('⚠'));

    let high = usage(95.0, true, 10_000, CompactionState::Normal);
    let bar = bar_of(&high);
    assert!(bar.contains("95%"));
    assert!(!bar.contains('•'));
    assert!(bar.contains('⚠'));
}

#[test]
fn test_format_context_bar_compaction_states() {
    let in_progress = usage(50.0, false, 80_000, CompactionState::InProgress);
    let bar = bar_of(&in_progress);
    assert!(bar.contains("Compacting"));
    assert!(!bar.contains('%'));
    assert!(!bar.contains("[=") && !bar.contains("[>") && !bar.contains("[-"));

    let recently_completed = usage(35.0, false, 104_000, CompactionState::RecentlyCompleted);
    let bar = bar_of(&recently_completed);
    assert!(bar.contains("35%"));
    assert!(bar.contains('✓'));

    let normal_warning = usage(85.0, true, 24_000, CompactionState::Normal);
    let bar = bar_of(&normal_warning);
    assert!(bar.contains("85%"));
    assert!(bar.contains('⚠'));
    assert!(!bar.contains('✓'));
}

#[test]
fn raw_bars_have_their_width() {
    assert_eq!(format_raw_bar(double(0.0), 10), "[>---------]");
    assert_eq!(format_raw_bar(double(50.0), 10), "[=====>----]");
    assert_eq!(format_raw_bar(double(100.0), 10), "[==========]");
    assert_eq!(format_raw_bar(double(30.0), 0).chars().count(), 2);
}

#[test]
fn test_burn_rate_calculation() {
    assert_eq!(session_burn_rate(double(0.5), Some(600), 60).map(number), Some(3.0));
    assert_eq!(session_burn_rate(double(33.28), Some(300), 60).map(number), Some(399.36));
    assert_eq!(session_burn_rate(double(0.25), Some(300), 60).map(number), Some(3.0));
}

#[test]
fn burn_rates_are_rounded_once() {
    let text = |c: Double, d: u64| {
        let cost = Cost {
            total_cost_usd: Some(c),
            total_lines_added: None,
            total_lines_removed: None,
            total_duration_ms: None,
        };
        let mut f = facts("/srv/project", None, None, Some(&cost));
        f.session_duration = Some(d);
        f.daily_total = double(0.0);
        let mut c = config("", "default");
        c.display.show_directory = false;
        c.burn_rate.min_duration_seconds = 0;
        format_statusline_string(&colors(false), &f, &PayloadExtras::default(), &c)
    };
    assert!(text(double(0.025006944), 3601).ends_with("$0.03 ($0.02/hr)"));
    // A rate far below a billionth is still above zero.
    assert!(text(double(1e-9), 3_600_000_000_000).ends_with("$0.00 ($0.00/hr)"));
    assert!(text(double(0.0), 3600).ends_with("$0.00"));
    // Half a cent an hour goes the way that its double goes.
    for (nanos, seconds) in [(2_500_000i64, 1800u64), (12_500, 9), (1_250_000, 180), (62_500, 9)] {
        let rate = (nanos as f64 / 1e9) * 3600.0 / seconds as f64;
        let line = text(double(nanos as f64 / 1e9), seconds);
        assert!(line.ends_with(&format!("(${rate:.2}/hr)")), "{nanos} {seconds} {line}");
    }
}

#[test]
fn burn_rates_are_what_doubles_give() {
    let mut x = 7u64;
    for i in 0..20_000u64 {
        x = x.wrapping_mul(6_364_136_223_846_793_005).wrapping_add(1_442_695_040_888_963_407);
        let nanos = ((x >> 33) % 10u64.pow((i % 11) as u32 + 1)) as i64;
        let seconds = (x >> 7) % 10u64.pow((i % 7) as u32 + 1) + 1;
        let rate = session_burn_rate(double(nanos as f64 / 1e9), Some(seconds), 0).unwrap();
        assert_eq!(number(rate), (nanos as f64 / 1e9) * 3600.0 / seconds as f64, "{nanos} {seconds}");
        assert_eq!(rate.text(2), format!("{:.2}", number(rate)), "{nanos} {seconds}");
    }
}

#[test]
fn percentages_are_compared_before_they_are_rounded() {
    let derived = |t: u64, w: u64, threshold: f64| {
        let cw = ContextWindow {
            total_input_tokens: Some(t),
            total_output_tokens: None,
            context_window_size: Some(w),
            used_percentage: None,
            remaining_percentage: None,
        };
        context_usage_from_payload(&cw, double(threshold)).unwrap().0
    };
    assert!(!derived(799_999_999_999, 1_000_000_000_000, 80.0).approaching_limit);
    assert!(derived(800_000_000_000, 1_000_000_000_000, 80.0).approaching_limit);
    let u = derived(58_000, 200_000, 29.0);
    assert_eq!(number(u.percentage), 28.999999999999996);
    assert_eq!(u.percentage.truncate(u32::MAX), 28);
    assert_eq!(u.percentage.round_count(), 29);
    assert!(!u.approaching_limit);
    assert_eq!(number(derived(300_000, 200_000, 80.0).percentage), 100.0);
    let mut x = 11u64;
    for i in 0..20_000u64 {
        x = x.wrapping_mul(6_364_136_223_846_793_005).wrapping_add(1_442_695_040_888_963_407);
        let w = (x >> 20) % 10u64.pow((i % 13) as u32 + 1) + 1;
        let t = (x >> 9) % w + (i % 3) * (w / 100);
        let p = (t as f64 / w as f64) * 100.0;
        let u = derived(t, w, 29.0);
        assert_eq!(number(u.percentage), p.min(100.0), "{t} {w}");
        assert_eq!(u.approaching_limit, p >= 29.0, "{t} {w}");
        assert_eq!(u.percentage.truncate(u32::MAX), p.min(100.0) as u32, "{t} {w}");
        assert_eq!(u.percentage.round_count(), p.min(100.0).round() as u32, "{t} {w}");
    }
}

#[test]
fn bars_are_filled_as_doubles_round() {
    let filled = |p: Double, w: usize| {
        format_raw_bar(p, w).chars().filter(|c| *c == '=').count()
    };
    assert_eq!(filled(double(29.0), 50), 14);
    assert_eq!(filled(double(-3.0), 50), 0);
    assert_eq!(filled(double(250.0), 50), 50);
    for nanos in (0..100_000_000_000i64).step_by(61_803_399) {
        for w in [1usize, 7, 10, 33, 50, 200] {
            let p = nanos as f64 / 1e9;
            let expected = (((p / 100.0) * w as f64).round() as usize).min(w);
            assert_eq!(filled(double(p), w), expected, "{nanos} {w}");
        }
    }
    for percent in 0..=100i64 {
        for w in 1..=100usize {
            let expected = (((percent as f64 / 100.0) * w as f64).round() as usize).min(w);
            assert_eq!(filled(double(percent as f64), w), expected);
        }
    }
}

#[test]
fn a_larger_percentage_fills_no_fewer_cells() {
    let cells = |p: f64| format_raw_bar(double(p), 30).chars().filter(|c| *c == '=').count();
    let mut last = 0;
    for tenths in 0..=1000 {
        let n = cells(tenths as f64 / 10.0);
        assert!(last <= n);
        last = n;
    }
    assert_eq!((cells(0.0), cells(100.0)), (0, 30));
}

#[test]
fn doubles_are_ordered_and_printed() {
    assert!(double(-1.0).not_above(&double(0.0)));
    assert!(!double(0.0).not_above(&double(-1.0)));
    assert!(double(-2.0).not_above(&double(-1.0)));
    assert!(!double(-1.0).not_above(&double(-2.0)));
    assert!(double(0.0).not_above(&double(0.0)));
    assert_eq!(double(-1.5).text(1), "-1.5");
    assert_eq!(double(0.125).text(2), "0.12");
    assert_eq!(double(-1.5).round_count(), 0);
    assert_eq!(double(5_000_000_000.0).truncate(u32::MAX), u32::MAX);
    assert!(!double(0.0).positive());
}

#[test]
fn no_burn_rate_for_a_short_session() {
    assert_eq!(session_burn_rate(double(0.5), Some(60), 60), None);
    assert!(session_burn_rate(double(0.5), Some(61), 60).is_some());
    assert_eq!(session_burn_rate(double(0.5), None, 60), None);
}

#[test]
fn test_sanitized_output() {
    let malicious_dir = "/home/user/\x1b[31mdanger\x1b[0m/project";
    let model_with_control = "model-\x00-opus\x07";
    let short_dir = sanitize_for_terminal(&shorten_path(malicious_dir, Some("/home/user")));
    assert!(!short_dir.contains('\x1b'));
    assert!(!short_dir.contains('\x00'));
    assert!(!short_dir.contains('\x07'));
    assert_eq!(short_dir, "~/danger/project");
    let sanitized_model = sanitize_for_terminal(model_with_control);
    assert_eq!(sanitized_model, "model--opus");
}

#[test]
fn printed_text_keeps_what_is_harmless() {
    assert_eq!(sanitize_for_terminal("a\tb\nc\rd"), "a\tb\nc\rd");
    assert_eq!(sanitize_for_terminal("é ✓ [31m"), "é ✓ [31m");
    assert_eq!(sanitize_for_terminal("\x1b[31"), "[31");
    assert_eq!(sanitize_for_terminal("\x1b[1;31mred\x7f\u{9b}"), "red");
    assert_eq!(shorten_path("/srv/x", Some("/home/user")), "/srv/x");
    assert_eq!(shorten_path("/srv/x", None), "/srv/x");
}

#[test]
fn test_token_rate_time_unit_conversion() {
    let test_cases = vec![
        ("second", 1, "tok/s"),
        ("minute", 60, "tok/min"),
        ("hour", 3600, "tok/hr"),
        ("invalid", 1, "tok/s"),
    ];
    for (time_unit, expected_multiplier, expected_unit) in test_cases {
        let (multiplier, unit) = rate_unit(time_unit);
        assert_eq!(multiplier, expected_multiplier, "time_unit '{time_unit}'");
        assert_eq!(unit, expected_unit, "time_unit '{time_unit}'");
    }
}

#[test]
fn test_token_rate_formatting_with_k_suffix() {
    let format_rate = |r: f64, unit: &str| format_rate_with_unit(double(r), unit, "", "");
    assert_eq!(format_rate(10.5, "second"), "10.5 tok/s");
    assert_eq!(format_rate(1000.0, "second"), "1.0K tok/s");
    assert_eq!(format_rate(1500.0, "second"), "1.5K tok/s");
    assert_eq!(format_rate(10.0, "minute"), "600.0 tok/min");
    assert_eq!(format_rate(20.0, "minute"), "1.2K tok/min");
    assert_eq!(format_rate(10.0, "hour"), "36.0K tok/hr");
    assert_eq!(format_rate(0.5, "hour"), "1.8K tok/hr");
    assert_eq!(format_rate(0.1, "hour"), "360.0 tok/hr");
}

#[test]
fn test_token_rate_hour_display() {
    assert_eq!(format_rate_with_unit(double(12.5), "hour", "", ""), "45.0K tok/hr");
}

#[test]
fn test_main_integration_placeholder() {
    assert_eq!(1 + 1, 2);
}

#[test]
fn without_colour_no_code_is_written() {
    assert_eq!(colors(false).separator_color(), "");
    assert_eq!(colors(false).reset(), "");
    assert_eq!(colors(true).reset(), "\x1b[0m");
}

#[test]
fn token_counts_are_shortened() {
    assert_eq!(format_token_count_for_display(999), "999");
    assert_eq!(format_token_count_for_display(1_499), "1K");
    assert_eq!(format_token_count_for_display(1_500), "2K");
    assert_eq!(format_token_count_for_display(1_250_000), "1.2M");
}

fn facts<'a>(
    dir: &'a str,
    git: Option<&'a GitFacts>,
    model: Option<&'a ModelFacts>,
    cost: Option<&'a Cost>,
) -> LineFacts<'a> {
    LineFacts {
        test_mode: false,
        current_dir: dir,
        short_dir: dir,
        basename: "project",
        git,
        model,
        transcript_context: None,
        transcript_duration: Some(600),
        session_duration: Some(600),
        cost,
        daily_total: double(3.0),
        token_rates: None,
        now: 1_000_000,
    }
}

fn git_facts() -> GitFacts {
    GitFacts { info: s(" main +1"), branch: s("main"), added: 1, modified: 0, deleted: 0, untracked: 2 }
}

fn model_facts() -> ModelFacts {
    ModelFacts { abbreviation: s("M4"), name: s("Model Four"), family: s("Model"), version: s("4") }
}

fn cost() -> Cost {
    Cost {
        total_cost_usd: Some(double(0.5)),
        total_lines_added: Some(10),
        total_lines_removed: Some(3),
        total_duration_ms: None,
    }
}

#[test]
fn the_line_has_its_parts_in_order() {
    let (g, m, c) = (git_facts(), model_facts(), cost());
    let f = facts("/srv/project", Some(&g), Some(&m), Some(&c));
    let line = format_statusline_string(
        &colors(false),
        &f,
        &PayloadExtras::default(),
        &config("", "default"),
    );
    assert!(!line.contains('\x1b'));
    let at = |t: &str| line.find(t).unwrap_or_else(|| panic!("{t} is not in {line}"));
    assert!(at("/srv/project") < at("main +1"));
    assert!(at("main +1") < at("M4"));
    assert!(at("M4") < at("$0.50"));
    assert!(line.contains(" • "));
    let coloured = format_statusline_string(
        &colors(true),
        &f,
        &PayloadExtras::default(),
        &config("", "default"),
    );
    assert!(coloured.contains('\x1b'));
    let plain: String = sanitize_for_terminal(&coloured);
    assert_eq!(plain, line);
}

#[test]
fn a_template_fills_in_what_is_known() {
    let (g, m, c) = (git_facts(), model_facts(), cost());
    let f = facts("/srv/project", Some(&g), Some(&m), Some(&c));
    let e = PayloadExtras::default();
    let line = |t: &str| {
        format_statusline_with_layout(&colors(false), &f, &e, &Enrichment::none(), &config(t, "default"), t)
    };
    assert_eq!(line("{directory}{sep}{git}{sep}{context}{sep}{model}"), "/srv/project | main +1 | M4");
    assert_eq!(line("{dir_short} {git_branch} {nothing}x"), "project main x");
    assert_eq!(line("{cost_short}"), "$0");
    assert_eq!(line("{lines}"), "+10 -3");
    assert_eq!(line("a{b"), "a{b");
    assert_eq!(line("{{model}}"), "{M4}");
    assert_eq!(line("{context}{sep}{model}\n{sep}{agents}{sep}x"), "M4\nx");
}

#[test]
fn names_from_outside_are_cleaned() {
    let g = GitFacts { branch: s("ma\x07in"), ..git_facts() };
    let m = ModelFacts { abbreviation: s("M\x1b[31m4"), name: s("Model\x1b[0m 4"), ..model_facts() };
    let f = facts("/srv/project", Some(&g), Some(&m), None);
    let e = PayloadExtras::default();
    let t = "{git_branch},{model_full}";
    assert_eq!(
        format_statusline_with_layout(
            &colors(false),
            &f,
            &e,
            &Enrichment::none(),
            &config(t, "default"),
            t
        ),
        "main,Model 4"
    );
    let line = format_statusline_string(&colors(false), &f, &e, &config("", "default"));
    assert!(line.contains(" • M4 • "), "{line}");
    assert!(!line.contains('\x1b'));
}

#[test]
fn the_layout_decides_between_template_and_fixed_order() {
    let m = model_facts();
    let f = facts("/srv/project", None, Some(&m), None);
    let e = PayloadExtras::default();
    let out = |format: &str, preset: &str, user: Option<&str>| {
        format_output_to_string(
            &colors(false),
            &f,
            &e,
            &Enrichment::none(),
            &config(format, preset),
            user.map(|u| u.to_string()),
        )
    };
    assert_eq!(out("", "minimal", None), "/srv/project M4");
    assert_eq!(out("", "MINIMAL", None), "/srv/project M4");
    assert_eq!(out("", "mine", Some("<{model}>")), "<M4>");
    assert_eq!(out("={model}=", "default", Some("<{model}>")), "=M4=");
    assert!(out("", "Default", Some("<{model}>")).contains(" • "));
}

#[test]
fn unknown_variables_can_be_shown() {
    let f = facts("/srv/project", None, None, None);
    let mut c = config("{nothing}{sep}{dir_short}", "default");
    let e = PayloadExtras::default();
    let out = |c: &LineConfig| {
        format_output_to_string(&colors(false), &f, &e, &Enrichment::none(), c, None)
    };
    assert_eq!(out(&c), "project");
    c.layout.show_unknown_vars = true;
    assert_eq!(out(&c), "{nothing} | project");
}

fn at(seconds: i64) -> Timestamp {
    Timestamp { seconds, nanos: 0 }
}

fn usage_cache() -> UsageCache {
    let tokens = |n: u64| TokenBreakdown {
        uncached_input: n,
        cache_read_input: n,
        cache_creation_1h: 0,
        cache_creation_5m: 0,
        output: n,
    };
    let mut tokens_by_model = TextMap::new();
    tokens_by_model.insert(s("model-y"), tokens(500_000));
    tokens_by_model.insert(s("model-x"), tokens(3));
    UsageCache {
        schema_version: 1,
        fetched_at: at(0),
        account: s("work"),
        today_usd: double(1.5),
        mtd_usd: double(42.25),
        tz: s("UTC"),
        tokens_by_model,
    }
}

fn models_cache() -> ModelsCache {
    ModelsCache { schema_version: 1, fetched_at: at(7141), models: TextMap::new() }
}

#[test]
fn ages_are_shown_only_with_the_enrichment_on() {
    let mut ant = AntConfig::default();
    let f = facts("/srv/project", None, None, None);
    let e = PayloadExtras::default();
    let vars = |ant: &AntConfig| -> TextMap<String> {
        let api = enrichment(ant, Some(usage_cache()), Some(&models_cache()), at(7200));
        layout_variables(&colors(false), &f, &e, &api, &config("x", "default"))
    };
    assert!(vars(&ant).get("api_usage_age").is_none());
    assert!(vars(&ant).get("api_models_age").is_none());
    ant.enabled = true;
    assert_eq!(vars(&ant).get("api_usage_age").unwrap(), "2h (stale)");
    assert_eq!(vars(&ant).get("api_models_age").unwrap(), "<1m");
    assert!(enrichment(&ant, None, None, at(7200)).usage_age.is_none());
}

#[test]
fn usage_is_shown_only_with_the_enrichment_on() {
    let mut ant = AntConfig::default();
    let f = facts("/srv/project", None, None, None);
    let e = PayloadExtras::default();
    let line = |ant: &AntConfig, usage: Option<UsageCache>| {
        let t = "{api_cost_today},{api_cost_mtd},{api_tokens_by_model},{api_account},{api_tz}";
        let api = enrichment(ant, usage, None, at(0));
        format_statusline_with_layout(&colors(false), &f, &e, &api, &config(t, "default"), t)
    };
    assert_eq!(line(&ant, Some(usage_cache())), ",,,,");
    ant.enabled = true;
    assert_eq!(line(&ant, None), ",,,,");
    assert_eq!(
        line(&ant, Some(usage_cache())),
        "$1.50,$42.25,model-x:9 model-y:1.5M,work,UTC"
    );
}

#[test]
fn other_lines_do_not_see_the_enrichment() {
    let mut ant = AntConfig::default();
    ant.enabled = true;
    let m = model_facts();
    let f = facts("/srv/project", None, Some(&m), None);
    let e = PayloadExtras::default();
    let api = enrichment(&ant, Some(usage_cache()), Some(&models_cache()), at(7200));
    for (format, preset) in [("", "default"), ("", "detailed"), ("{model} {api}", "default")] {
        let c = config(format, preset);
        assert_eq!(
            format_output_to_string(&colors(true), &f, &e, &api, &c, None),
            format_output_to_string(&colors(true), &f, &e, &Enrichment::none(), &c, None)
        );
    }
}

#[test]
fn agents_and_prompt_cache_have_their_variables() {
    let totals = |n: u64| TranscriptTotals {
        requests: 1,
        input_tokens: n,
        cache_read_tokens: 0,
        cache_creation_tokens: 0,
        output_tokens: 0,
    };
    let mut summary = AgentsSummary::of_main(totals(70_000));
    summary.record_agent(&totals(10_000), Some(s("Plan")));
    summary.record_agent(&totals(10_000), Some(s("Explore")));
    summary.record_agent(&totals(10_000), Some(s("Plan")));
    let pc = PromptCache {
        hit_ratio: Some(double(0.91)),
        misses: Some(2),
        last_miss_causes: vec![s("tools_changed"), s("other")],
    };
    let f = facts("/srv/project", None, None, None);
    let line = |e: &PayloadExtras, t: &str| {
        let c = config(t, "default");
        format_statusline_with_layout(&colors(false), &f, e, &Enrichment::none(), &c, t)
    };
    let mut e = PayloadExtras::default();
    let agents = "{agents},{agents_count},{agents_pct},{agents_tokens},{agents_types}";
    let cache = "{prompt_cache},{cache_hit},{cache_misses},{cache_miss_cause}";
    assert_eq!(line(&e, agents), ",,,,");
    assert_eq!(line(&e, cache), ",,,");
    e.agents = Some(&summary);
    e.prompt_cache = Some(&pc);
    assert_eq!(line(&e, agents), "🤖3 30%,3,30%,30k,Explore:1 Plan:2");
    assert_eq!(line(&e, cache), "cache 91% miss:2 tools_changed,91%,2,tools_changed");
}

#[test]
fn changes_are_listed_by_kind() {
    let mut g = git_facts();
    assert_eq!(git_status_words(&g).as_deref(), Some("+1 ?2"));
    g.modified = 3;
    g.deleted = 4;
    assert_eq!(git_status_words(&g).as_deref(), Some("+1 ~3 -4 ?2"));
    let clean =
        GitFacts { info: s("main"), branch: s("main"), added: 0, modified: 0, deleted: 0, untracked: 0 };
    assert!(git_status_words(&clean).is_none());
}

fn surroundings() -> Surroundings {
    Surroundings {
        test_mode: false,
        home: Some(s("/home/x")),
        git: None,
        model: Some(model_facts()),
        transcript_context: None,
        transcript_duration: None,
        session_duration: None,
        daily_total: double(0.0),
        token_rates: None,
        agents: None,
        api: Enrichment::none(),
        now: 0,
        user_format: None,
    }
}

#[test]
fn a_session_is_rendered_from_what_it_says() {
    let mut input = StatuslineInput::default();
    let c = config("{directory}|{dir_short}|{model}|{effort}|{repo}|{cc_version}", "default");
    assert_eq!(
        render_statusline(&input, &surroundings(), &colors(false), &c),
        "~|~|M4|||"
    );
    input.workspace = Some(Workspace {
        current_dir: Some(s("/home/x/work/\x1b[31mp")),
        repo: Some(Repo { owner: Some(s("o")), name: Some(s("n")) }),
    });
    input.model = Some(Model { display_name: None, id: Some(s("m")) });
    input.effort = Some(Effort { level: Some(s("high")) });
    input.version = Some(s("2.0"));
    assert_eq!(
        render_statusline(&input, &surroundings(), &colors(false), &c),
        "~/work/p|\x1b[31mp|M4|high|o/n|v2.0"
    );
}

#[test]
fn a_home_directory_alone_is_a_tilde() {
    assert_eq!(home_only("", &colors(false)).as_deref(), Some("~"));
    assert_eq!(home_only("~", &colors(true)).as_deref(), Some("\x1b[36m~\x1b[0m"));
    assert!(home_only("/x", &colors(false)).is_none());
}
