use statusline::agents::{AgentsSummary, TranscriptTotals};
use statusline::commands::list_vars::core_variables;
use statusline::config::{
    ComponentsConfig, ContextComponentConfig, CostComponentConfig, DirectoryComponentConfig,
    GitComponentConfig, LayoutConfig, ModelComponentConfig, Thresholds,
    TokenRateComponentConfig, TokenRateConfig,
};
use statusline::display::colors::{Colors, Theme};
use statusline::display::line::ModelFacts;
use statusline::display::pieces::{format_agents, format_prompt_cache, PromptCache};
use statusline::display::rates::format_token_rates;
use statusline::double::Double;
use statusline::layout::format::format_token_count;
use statusline::layout::rates::TokenRateMetrics;
use statusline::layout::render::render_with_vars;
use statusline::layout::variables::VariableBuilder;
use statusline::text_map::TextMap;

fn s(t: &str) -> String {
    t.to_string()
}

fn double(x: f64) -> Double {
    Double { bits: x.to_bits() }
}

fn value(vars: &TextMap<String>, name: &str) -> Option<String> {
    vars.get(name).cloned()
}

fn directory(format: &str, max_length: usize) -> TextMap<String> {
    let config = DirectoryComponentConfig { format: s(format), max_length, color: s("") };
    VariableBuilder::new()
        .directory_with_config(
            "/home/u/projects",
            "~/projects",
            "projects",
            "<",
            ">",
            &config,
            &plain_colors(),
        )
        .build()
}

#[test]
fn directory_is_shown_in_the_form_that_is_configured() {
    assert_eq!(value(&directory("short", 0), "directory"), Some(s("<~/projects>")));
    assert_eq!(value(&directory("full", 0), "directory"), Some(s("</home/u/projects>")));
    assert_eq!(value(&directory("basename", 0), "directory"), Some(s("<projects>")));
    assert_eq!(value(&directory("other", 0), "directory"), Some(s("<~/projects>")));
    assert_eq!(value(&directory("short", 0), "dir_short"), Some(s("<projects>")));
}

#[test]
fn configured_colours_are_those_of_the_theme() {
    let shown = |color: &str, colors: &Colors| {
        let config = DirectoryComponentConfig { format: s("full"), max_length: 0, color: s(color) };
        let vars = VariableBuilder::new()
            .directory_with_config("/a", "/a", "a", "default ", "!", &config, colors)
            .build();
        value(&vars, "directory").unwrap()
    };
    let mut c = plain_colors();
    assert_eq!(shown("red", &c), "<red>/a!");
    assert_eq!(shown("light_gray", &c), "<light_gray>/a!");
    assert_eq!(shown("\x1b[35m", &c), "\x1b[35m/a!");
    assert_eq!(shown("", &c), "default /a!");
    assert_eq!(c.resolve_color_override("orange"), "<orange>");
    c.on = false;
    assert_eq!(shown("red", &c), "/a!");
}

#[test]
fn long_directories_lose_their_beginning() {
    assert_eq!(value(&directory("short", 5), "directory"), Some(s("<…ects>")));
    assert_eq!(value(&directory("short", 5), "dir_short"), Some(s("<…ects>")));
    assert_eq!(value(&directory("short", 10), "directory"), Some(s("<~/projects>")));
    assert_eq!(value(&directory("short", 1), "directory"), Some(s("<…>")));
}

fn git(format: &str, show_when: &str, dirty: bool) -> TextMap<String> {
    let config = GitComponentConfig { format: s(format), show_when: s(show_when), color: s("") };
    VariableBuilder::new()
        .git_with_config(
            "[main +1]",
            Some("main"),
            Some("+1"),
            dirty,
            "<",
            ">",
            &config,
            &plain_colors(),
        )
        .build()
}

#[test]
fn git_is_shown_when_and_as_configured() {
    assert_eq!(value(&git("full", "always", false), "git"), Some(s("[main +1]")));
    assert_eq!(value(&git("branch", "always", false), "git"), Some(s("<main>")));
    assert_eq!(value(&git("status", "always", false), "git"), Some(s("+1")));
    assert_eq!(value(&git("full", "dirty", true), "git"), Some(s("[main +1]")));
    assert_eq!(value(&git("full", "always", false), "git_branch"), Some(s("<main>")));
    assert!(git("full", "dirty", false).is_empty());
    assert!(git("full", "never", true).is_empty());
}

fn context(format: &str, show_tokens: bool) -> TextMap<String> {
    let config = ContextComponentConfig { format: s(format), show_tokens };
    VariableBuilder::new()
        .context_with_config("[==--]", Some(42), Some((84_999, 200_000)), &config)
        .build()
}

#[test]
fn context_is_shown_in_the_form_that_is_configured() {
    assert_eq!(value(&context("full", true), "context"), Some(s("42% [==--] 84k/200k")));
    assert_eq!(value(&context("full", false), "context"), Some(s("42% [==--]")));
    assert_eq!(value(&context("bar", true), "context"), Some(s("[==--]")));
    assert_eq!(value(&context("percent", true), "context"), Some(s("42%")));
    assert_eq!(value(&context("tokens", false), "context"), Some(s("84k/200k")));
    assert_eq!(value(&context("bar", false), "context_pct"), Some(s("42%")));
    assert_eq!(value(&context("bar", false), "context_tokens"), Some(s("84k/200k")));
    let config = ContextComponentConfig { format: s("full"), show_tokens: true };
    assert!(VariableBuilder::new().context_with_config("", None, None, &config).build().is_empty());
}

fn model(format: &str) -> TextMap<String> {
    let config = ModelComponentConfig { format: s(format), color: s("") };
    VariableBuilder::new()
        .model_with_config("M4", "Model 4", "Model", "4", "<", ">", &config, &plain_colors())
        .build()
}

#[test]
fn model_is_shown_in_the_form_that_is_configured() {
    assert_eq!(value(&model("abbreviation"), "model"), Some(s("<M4>")));
    assert_eq!(value(&model("full"), "model"), Some(s("<Model 4>")));
    assert_eq!(value(&model("name"), "model"), Some(s("<Model>")));
    assert_eq!(value(&model("version"), "model"), Some(s("<4>")));
    assert_eq!(value(&model("version"), "model_full"), Some(s("<Model 4>")));
    assert_eq!(value(&model("version"), "model_name"), Some(s("<Model>")));
}

fn cost(format: &str, rate: f64, daily: f64) -> TextMap<String> {
    let config = CostComponentConfig { format: s(format), color: s("") };
    let (c, r, d) = (Some(double(12.5)), Some(double(rate)), Some(double(daily)));
    VariableBuilder::new().cost_with_config(c, r, d, "<", "(", ">", &config, &plain_colors()).build()
}

#[test]
fn cost_is_shown_in_the_form_that_is_configured() {
    assert_eq!(value(&cost("full", 3.5, 20.0), "cost"), Some(s("<$12.50> (($3.50/hr>)")));
    assert_eq!(value(&cost("full", 0.0, 20.0), "cost"), Some(s("<$12.50>")));
    assert_eq!(value(&cost("cost_only", 3.5, 20.0), "cost"), Some(s("<$12.50>")));
    assert_eq!(value(&cost("rate_only", 3.5, 20.0), "cost"), Some(s("($3.50/hr>")));
    assert_eq!(value(&cost("rate_only", 0.0, 20.0), "cost"), None);
    assert_eq!(value(&cost("with_daily", 3.5, 20.0), "cost"), Some(s("<$12.50> day:<$20.00>")));
    assert_eq!(value(&cost("with_daily", 3.5, 0.0), "cost"), Some(s("<$12.50>")));
    // Halves go to the even number.
    assert_eq!(value(&cost("full", 3.5, 20.0), "cost_short"), Some(s("<$12>")));
    assert_eq!(value(&cost("full", 3.5, 20.0), "burn_rate"), Some(s("($3.50/hr>")));
    assert_eq!(value(&cost("full", 3.5, 20.0), "daily_total"), Some(s("<$20.00>")));
    assert_eq!(value(&cost("full", 0.0, 0.0), "burn_rate"), None);
    assert_eq!(value(&cost("full", 0.0, 0.0), "daily_total"), None);
}

#[test]
fn changed_lines_are_shown_as_far_as_there_are_any() {
    let lines = |added: u64, removed: u64| {
        let b = VariableBuilder::new().lines_changed(added, removed, "<", "{", ">");
        value(&b.build(), "lines")
    };
    assert_eq!(lines(3, 2), Some(s("<+3> {-2>")));
    assert_eq!(lines(3, 0), Some(s("<+3>")));
    assert_eq!(lines(0, 2), Some(s("{-2>")));
    assert_eq!(lines(0, 0), None);
}

#[test]
fn token_counts_are_short() {
    assert_eq!(format_token_count(999), "999");
    assert_eq!(format_token_count(1_499), "1K");
    assert_eq!(format_token_count(1_500), "2K");
    assert_eq!(format_token_count(1_500_000), "1.5M");
}

fn rate_component(format: &str) -> TokenRateComponentConfig {
    TokenRateComponentConfig {
        format: s(format),
        time_unit: s("minute"),
        color: s(""),
        show_session_total: true,
        show_daily_total: true,
    }
}

#[test]
fn token_rate_is_shown_with_the_totals_that_are_configured() {
    let show = |format: &str| {
        VariableBuilder::new()
            .token_rate_with_config(
                double(1.5),
                Some(2_000),
                Some(3_000_000),
                "<",
                ">",
                &rate_component(format),
                &plain_colors(),
            )
            .build()
    };
    let rate = |format: &str| value(&show(format), "token_rate");
    assert_eq!(rate("rate_only"), Some(s("<90.0 tok/min>")));
    assert_eq!(rate("with_session"), Some(s("<90.0 tok/min> • <2K>")));
    assert_eq!(rate("with_daily"), Some(s("<90.0 tok/min> <(day: 3.0M)>")));
    assert_eq!(rate("full"), Some(s("<90.0 tok/min> • <2K> <(day: 3.0M)>")));
    assert_eq!(value(&show("full"), "token_rate_only"), Some(s("<90.0 tok/min>")));
    assert_eq!(value(&show("full"), "token_session_total"), Some(s("<2K>")));
    assert_eq!(value(&show("full"), "token_daily_total"), Some(s("<day: 3.0M>")));
    let none = VariableBuilder::new()
        .token_rate_with_config(double(0.0), None, None, "<", ">", &rate_component("full"), &plain_colors())
        .build();
    assert!(none.is_empty());
}

fn metrics(roi: Option<Double>) -> TokenRateMetrics {
    TokenRateMetrics {
        input_rate: double(0.5),
        output_rate: double(0.25),
        cache_read_rate: double(1.0),
        total_rate: double(1.75),
        cache_hit_ratio: Some(double(0.915)),
        cache_roi: roi,
        session_total_tokens: 2_000,
        daily_total_tokens: 3_000_000,
    }
}

fn rate_config(mode: &str, display: &str, cache: bool) -> TokenRateConfig {
    TokenRateConfig { display_mode: s(mode), rate_display: s(display), cache_metrics: cache }
}

#[test]
fn token_rates_are_shown_as_configured() {
    let show = |format: &str, mode: &str, display: &str, cache: bool| {
        VariableBuilder::new()
            .token_rate_with_metrics(
                &metrics(Some(double(2.5))),
                "<",
                ">",
                &rate_component(format),
                &rate_config(mode, display, cache),
                &plain_colors(),
            )
            .build()
    };
    let rate = |format: &str, mode: &str, display: &str, cache: bool| {
        value(&show(format, mode, display, cache), "token_rate")
    };
    assert_eq!(rate("rate_only", "summary", "both", true), Some(s("<105.0 tok/min>")));
    assert_eq!(
        rate("rate_only", "detailed", "both", true),
        Some(s("<In:<90.0 tok/min> Out:<15.0 tok/min>>"))
    );
    assert_eq!(
        rate("rate_only", "detailed", "output_only", true),
        Some(s("<Out:<15.0 tok/min>>"))
    );
    assert_eq!(
        rate("rate_only", "detailed", "input_only", true),
        Some(s("<In:<90.0 tok/min>>"))
    );
    assert_eq!(
        rate("rate_only", "cache_only", "both", true),
        Some(s("<Cache:91% (2.5x ROI)>"))
    );
    assert_eq!(rate("rate_only", "cache_only", "both", false), Some(s("<105.0 tok/min>")));
    assert_eq!(
        rate("full", "summary", "both", true),
        Some(s("<105.0 tok/min> • <2K> <(day: 3.0M)>"))
    );
    let vars = show("full", "summary", "both", true);
    assert_eq!(value(&vars, "token_input_rate"), Some(s("<90.0 tok/min>")));
    assert_eq!(value(&vars, "token_output_rate"), Some(s("<15.0 tok/min>")));
    assert_eq!(value(&vars, "token_cache_rate"), Some(s("<60.0 tok/min>")));
    assert_eq!(value(&vars, "token_cache_hit"), Some(s("91%")));
    assert_eq!(value(&vars, "token_cache_roi"), Some(s("2.5x")));
    let hidden = show("full", "summary", "both", false);
    assert_eq!(value(&hidden, "token_cache_rate"), None);
    assert_eq!(value(&hidden, "token_cache_hit"), None);
    assert_eq!(value(&hidden, "token_cache_roi"), None);
}

#[test]
fn input_rates_are_added_as_doubles() {
    let shown = |input: f64, cache: f64, unit: &str| {
        let mut m = metrics(None);
        m.input_rate = double(input);
        m.cache_read_rate = double(cache);
        let mut component = rate_component("rate_only");
        component.time_unit = s(unit);
        let config = rate_config("summary", "both", false);
        let vars = VariableBuilder::new()
            .token_rate_with_metrics(&m, "", "", &component, &config, &plain_colors())
            .build();
        value(&vars, "token_input_rate").unwrap()
    };
    // 0.05 and 0.1 make a double just above 0.15.
    assert_eq!(shown(0.05, 0.1, "second"), "0.2 tok/s");
    assert_eq!(shown(0.0, 0.0, "second"), "0.0 tok/s");
    assert_eq!(shown(f64::MAX, f64::MAX, "second"), "infK tok/s");
    let mut x = 5u64;
    for i in 0..5_000u64 {
        x = x.wrapping_mul(6_364_136_223_846_793_005).wrapping_add(1_442_695_040_888_963_407);
        let input = ((x >> 11) % 10u64.pow((i % 14) as u32 + 1)) as f64 / 1e5;
        let cache = ((x >> 3) % 10u64.pow((i % 9) as u32 + 1)) as f64 / 1e5;
        for (unit, factor, name) in [("second", 1.0, "tok/s"), ("hour", 3600.0, "tok/hr")] {
            let rate = (input + cache) * factor;
            let expected = if rate >= 1000.0 {
                format!("{:.1}K {name}", rate / 1000.0)
            } else {
                format!("{rate:.1} {name}")
            };
            assert_eq!(shown(input, cache, unit), expected, "{input} {cache}");
        }
    }
}

#[test]
fn endless_returns_have_a_sign_of_their_own() {
    let vars = VariableBuilder::new()
        .token_rate_with_metrics(
            &metrics(Some(double(f64::INFINITY))),
            "",
            "",
            &rate_component("rate_only"),
            &rate_config("cache_only", "both", true),
            &plain_colors(),
        )
        .build();
    assert_eq!(value(&vars, "token_rate"), Some(s("Cache:91% (∞ ROI)")));
    assert_eq!(value(&vars, "token_cache_roi"), Some(s("∞")));
}

#[test]
fn limits_are_shown_one_by_one_and_together() {
    let vars = VariableBuilder::new()
        .rate_limits(Some("5h:24%"), Some("2h5m"), Some("7d:41%"), None, "<", ">")
        .build();
    assert_eq!(value(&vars, "rate_limit_5h"), Some(s("<5h:24%>")));
    assert_eq!(value(&vars, "rate_limit_5h_reset"), Some(s("<2h5m>")));
    assert_eq!(value(&vars, "rate_limit_7d"), Some(s("<7d:41%>")));
    assert_eq!(value(&vars, "rate_limit_7d_reset"), None);
    assert_eq!(value(&vars, "rate_limits"), Some(s("<5h:24%> <7d:41%>")));
    let none = VariableBuilder::new().rate_limits(None, None, None, None, "<", ">").build();
    assert!(none.is_empty());
}

fn totals(input: u64) -> TranscriptTotals {
    TranscriptTotals {
        requests: 1,
        input_tokens: input,
        cache_read_tokens: 0,
        cache_creation_tokens: 0,
        output_tokens: 0,
    }
}

#[test]
fn agents_are_shown_with_their_share() {
    let mut summary = AgentsSummary::of_main(totals(70));
    assert_eq!(format_agents(&summary), None);
    summary.record_agent(&totals(10), Some(s("Explore")));
    summary.record_agent(&totals(20), None);
    assert_eq!(format_agents(&summary), Some(s("🤖2 30%")));
}

#[test]
fn prompt_cache_is_shown_as_far_as_it_is_known() {
    let show = |hit_ratio: Option<f64>, misses: Option<u64>, causes: &[&str]| {
        let last_miss_causes = causes.iter().map(|c| s(c)).collect();
        let hit_ratio = hit_ratio.map(double);
        format_prompt_cache(&PromptCache { hit_ratio, misses, last_miss_causes })
    };
    assert_eq!(
        show(Some(0.91), Some(2), &["tools_changed", "other"]),
        Some(s("cache 91% miss:2 tools_changed"))
    );
    assert_eq!(show(Some(0.91), Some(0), &["tools_changed"]), Some(s("cache 91%")));
    assert_eq!(show(None, Some(2), &[]), Some(s("miss:2")));
    assert_eq!(show(None, None, &[]), None);
}

fn plain_colors() -> Colors {
    let c = |t: &str| format!("<{t}>");
    Colors {
        on: true,
        theme: Theme {
            red: c("red"),
            green: c("green"),
            yellow: c("yellow"),
            blue: c("blue"),
            magenta: c("magenta"),
            cyan: c("cyan"),
            white: c("white"),
            gray: c("gray"),
            orange: c("orange"),
            light_gray: c("light_gray"),
            separator: c("separator"),
            directory: c("directory"),
            model: c("model"),
            git_branch: c("git_branch"),
            duration: c("duration"),
            lines_added: c("lines_added"),
            lines_removed: c("lines_removed"),
            cost_low: c("cost_low"),
            cost_medium: c("cost_medium"),
            cost_high: c("cost_high"),
            context_normal: c("context_normal"),
            context_caution: c("context_caution"),
            context_warning: c("context_warning"),
            context_critical: c("context_critical"),
        },
        thresholds: Thresholds {
            cost_low: double(5.0),
            cost_medium: double(20.0),
            context_caution: double(50.0),
            context_warning: double(70.0),
            context_critical: double(90.0),
        },
    }
}

#[test]
fn themes_colour_what_they_are_made_for() {
    let mut c = plain_colors();
    assert_eq!(c.bold(), "\x1b[1m");
    assert_eq!(c.text_color(), "<context_normal>");
    assert_eq!(c.directory(), "<directory>");
    c.on = false;
    assert_eq!(c.bold(), "");
    assert_eq!(c.text_color(), "");
}

#[test]
fn token_rates_stand_before_their_totals() {
    let mut c = plain_colors();
    c.on = false;
    let shown = format_token_rates(
        &c,
        &metrics(None),
        &rate_component("rate_only"),
        &rate_config("summary", "both", true),
    );
    assert_eq!(shown, "105.0 tok/min 2K day: 3.0M");
}

#[test]
fn core_variables_hold_what_is_known() {
    let model = Some(ModelFacts {
        abbreviation: s("M4"),
        name: s("Model 4"),
        family: s("Model"),
        version: s("4"),
    });
    let mut c = plain_colors();
    c.on = false;
    let vars = core_variables(
        &c,
        "~/x",
        "x",
        &model,
        Some(double(41.5)),
        Some(double(1.25)),
        double(3.0),
    );
    assert_eq!(value(&vars, "directory"), Some(s("~/x")));
    assert_eq!(value(&vars, "dir_short"), Some(s("x")));
    assert_eq!(value(&vars, "model"), Some(s("M4")));
    assert_eq!(value(&vars, "model_full"), Some(s("Model 4")));
    assert_eq!(value(&vars, "model_name"), Some(s("Model")));
    assert_eq!(value(&vars, "context_pct"), Some(s("42")));
    assert_eq!(value(&vars, "cost"), Some(s("$1.25")));
    assert_eq!(value(&vars, "daily_total"), Some(s("$3.00")));
    let few = core_variables(&c, "~/x", "x", &None, None, None, double(0.0));
    assert_eq!(few.len(), 2);
}

#[test]
fn the_default_template_is_filled_in() {
    let layout = LayoutConfig {
        format: s(""),
        preset: s("default"),
        separator: s(" | "),
        show_unknown_vars: false,
        components: ComponentsConfig {
            directory: DirectoryComponentConfig {
                format: s("short"),
                max_length: 0,
                color: s(""),
            },
            git: GitComponentConfig { format: s("full"), show_when: s("always"), color: s("") },
            context: ContextComponentConfig { format: s("full"), show_tokens: false },
            model: ModelComponentConfig { format: s("abbreviation"), color: s("") },
            cost: CostComponentConfig { format: s("full"), color: s("") },
            token_rate: rate_component("rate_only"),
        },
    };
    let mut vars = TextMap::new();
    vars.insert(s("directory"), s("~/x"));
    vars.insert(s("model"), s("M4"));
    assert_eq!(render_with_vars(&vars, &layout), "~/x | M4");
}
