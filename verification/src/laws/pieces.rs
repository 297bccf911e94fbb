//! What the parts of the line say.

use crate::agents::{short_count, AgentsSummary};
use crate::config::{TokenRateComponentConfig, TokenRateConfig};
use crate::display::colors::{asked_theme, Colors, Theme};
use crate::display::context::{bar_cells, context_piece, filled_cells, ContextUsage};
use crate::display::pieces::{
    agents_piece, countdown, duration_digits, limits_piece, prompt_cache_piece, window_piece,
    PromptCache, RateLimitWindow, RateLimits,
};
use crate::display::rates::rates_piece;
use crate::double::Double;
use crate::laws::words::{begins_with, ends_in};
use crate::layout::format::{rate_in_unit, token_count};
use crate::layout::rates::TokenRateMetrics;
use crate::text::{dec, dec_int};
use vstd::prelude::*;

verus! {

// ---------------------------------------------------------------------------
// Colours
// ---------------------------------------------------------------------------

/// A cost has the low colour below the low mark, the high colour from the medium mark on,
/// and the medium colour between the two.
pub proof fn costs_have_their_colours(c: Colors, cost: Double)
    requires
        c.on,
        !cost.is_nan(),
        c.thresholds.cost_low.at_most(c.thresholds.cost_medium),
    ensures
        cost.below(c.thresholds.cost_low) ==> c.cost_code(cost) == c.theme.cost_low@,
        c.thresholds.cost_low.at_most(cost) && cost.below(c.thresholds.cost_medium)
            ==> c.cost_code(cost) == c.theme.cost_medium@,
        c.thresholds.cost_medium.at_most(cost) ==> c.cost_code(cost) == c.theme.cost_high@,
{
}

/// A percentage has the colour of the highest mark that it is above, and the normal one
/// where it is above none.
pub proof fn percentages_have_their_colours(c: Colors, p: Double)
    requires
        c.on,
        c.thresholds.context_caution.at_most(c.thresholds.context_warning),
        c.thresholds.context_warning.at_most(c.thresholds.context_critical),
        !p.is_nan(),
    ensures
        p.at_most(c.thresholds.context_caution) ==> c.context_code(p) == c.theme.context_normal@,
        c.thresholds.context_caution.below(p) && p.at_most(c.thresholds.context_warning)
            ==> c.context_code(p) == c.theme.context_caution@,
        c.thresholds.context_warning.below(p) && p.at_most(c.thresholds.context_critical)
            ==> c.context_code(p) == c.theme.context_warning@,
        c.thresholds.context_critical.below(p) ==> c.context_code(p) == c.theme.context_critical@,
{
}

/// In either theme, colours go from green over yellow to red as costs rise, and over orange
/// as the context fills; what is added is green, what is removed red; a directory and a
/// model are cyan. The dark theme writes normal text white and faint text light gray, the
/// light theme both gray.
pub proof fn themes_follow_their_colours(t: Theme)
    requires
        t.is_dark() || t.is_light(),
    ensures
        t.cost_low@ == t.green@ && t.cost_medium@ == t.yellow@ && t.cost_high@ == t.red@,
        t.context_caution@ == t.yellow@ && t.context_warning@ == t.orange@ && t.context_critical@
            == t.red@,
        t.lines_added@ == t.green@ && t.lines_removed@ == t.red@ && t.git_branch@ == t.green@,
        t.directory@ == t.cyan@ && t.model@ == t.cyan@,
        t.is_dark() ==> t.context_normal@ == t.white@ && t.separator@ == t.light_gray@
            && t.duration@ == t.light_gray@,
        t.is_light() ==> t.context_normal@ == t.gray@ && t.separator@ == t.gray@ && t.duration@
            == t.gray@,
{
}

/// The escape codes of the basic colours differ in one number, counted up from that of red.
pub proof fn basic_colours_count_up(t: Theme)
    requires
        t.is_dark() || t.is_light(),
    ensures
        t.red@ == seq!['\x1b', '[', '3', '1', 'm'],
        t.green@ == t.red@.update(3, '2'),
        t.yellow@ == t.red@.update(3, '3'),
        t.blue@ == t.red@.update(3, '4'),
        t.magenta@ == t.red@.update(3, '5'),
        t.cyan@ == t.red@.update(3, '6'),
        t.white@ == t.red@.update(3, '7'),
        t.gray@ == seq!['\x1b', '[', '9', '0', 'm'],
{
    reveal_strlit("\x1b[31m");
    reveal_strlit("\x1b[32m");
    reveal_strlit("\x1b[33m");
    reveal_strlit("\x1b[34m");
    reveal_strlit("\x1b[35m");
    reveal_strlit("\x1b[36m");
    reveal_strlit("\x1b[37m");
    reveal_strlit("\x1b[90m");
}

/// A colour that is named is the theme's of that name; one that is no name stands for
/// itself, whether colours are on or off.
pub proof fn named_colours_are_the_themes(c: Colors, other: Seq<char>)
    requires
        c.theme.named_code(other) is None,
    ensures
        c.override_code("red"@) == c.code(c.theme.red@),
        c.override_code("green"@) == c.code(c.theme.green@),
        c.override_code("yellow"@) == c.code(c.theme.yellow@),
        c.override_code("blue"@) == c.code(c.theme.blue@),
        c.override_code("magenta"@) == c.code(c.theme.magenta@),
        c.override_code("cyan"@) == c.code(c.theme.cyan@),
        c.override_code("white"@) == c.code(c.theme.white@),
        c.override_code("gray"@) == c.code(c.theme.gray@),
        c.override_code("orange"@) == c.code(c.theme.orange@),
        c.override_code("light_gray"@) == c.code(c.theme.light_gray@),
        c.override_code(other) == other,
{
    reveal_strlit("red");
    reveal_strlit("green");
    reveal_strlit("yellow");
    reveal_strlit("blue");
    reveal_strlit("magenta");
    reveal_strlit("cyan");
    reveal_strlit("white");
    reveal_strlit("gray");
    reveal_strlit("orange");
    reveal_strlit("light_gray");
    assert("red"@.len() == 3);
    assert("magenta"@.len() == 7);
    assert("light_gray"@.len() == 10);
    assert("blue"@.len() == 4 && "cyan"@.len() == 4 && "gray"@.len() == 4);
    assert("blue"@[0] == 'b' && "cyan"@[0] == 'c' && "gray"@[0] == 'g');
    assert("green"@.len() == 5 && "white"@.len() == 5);
    assert("green"@[0] == 'g' && "white"@[0] == 'w');
    assert("yellow"@.len() == 6 && "orange"@.len() == 6);
    assert("yellow"@[0] == 'y' && "orange"@[0] == 'o');
}

/// The theme is the one that the host names, or else the one that the user's variable
/// names, or else the file's, or else the dark one.
pub proof fn the_theme_is_asked_for_in_order(
    host: Seq<char>,
    variable: Seq<char>,
    file: Seq<char>,
    any: Option<Seq<char>>,
    also: Option<Seq<char>>,
)
    ensures
        asked_theme(Some(host), any, also) == host,
        asked_theme(None, Some(variable), any) == variable,
        asked_theme(None, None, Some(file)) == file,
        asked_theme(None, None, None) == "dark"@,
{
}

// ---------------------------------------------------------------------------
// Times and counts
// ---------------------------------------------------------------------------

/// A duration is written in seconds below a minute, in whole minutes below an hour, and in
/// hours and minutes from there on; what is left over is dropped.
pub proof fn durations_are_written_in_units(hours: nat, minutes: nat, seconds: nat)
    requires
        minutes < 60,
        seconds < 60,
    ensures
        ({
            let text = duration_digits(hours * 3600 + minutes * 60 + seconds);
            &&& hours > 0 ==> text == dec(hours) + "h"@ + dec(minutes) + "m"@
            &&& hours == 0 && minutes > 0 ==> text == dec(minutes) + "m"@
            &&& hours == 0 && minutes == 0 ==> text == dec(seconds) + "s"@
        }),
{
}

/// The time left is written in days and hours, in hours and minutes, or in minutes,
/// whichever is the first that is not nothing; below a minute it says so, and where no time
/// is left there is nothing to say.
pub proof fn time_left_is_written_in_units(days: nat, hours: nat, minutes: nat, seconds: nat, past: int)
    requires
        hours < 24,
        minutes < 60,
        seconds < 60,
        days + hours + minutes + seconds > 0,
        past <= 0,
    ensures
        ({
            let text = countdown(
                (days * 86_400 + hours * 3_600 + minutes * 60 + seconds) as int,
            );
            &&& days > 0 ==> text == Some(dec(days) + "d"@ + dec(hours) + "h"@)
            &&& days == 0 && hours > 0 ==> text == Some(dec(hours) + "h"@ + dec(minutes) + "m"@)
            &&& days == 0 && hours == 0 && minutes > 0 ==> text == Some(dec(minutes) + "m"@)
            &&& days == 0 && hours == 0 && minutes == 0 ==> text == Some("<1m"@)
        }),
        countdown(past) is None,
{
}

/// A count is written out below a thousand, in thousands below a million, rounded to the
/// nearest, and in millions with one place from there on.
pub proof fn counts_are_rounded_to_thousands(n: nat, k: nat)
    ensures
        n < 1000 ==> token_count(n) == dec(n),
        1000 <= n < 1_000_000 && 1000 * k <= n + 500 && n + 500 < 1000 * (k + 1) ==> token_count(n)
            == dec(k) + "K"@,
        n >= 1_000_000 ==> ends_in(token_count(n), "M"@),
{
    reveal_strlit("M");
}

/// A short count is written out below a thousand, in whole thousands below a million, cut
/// off, and in whole millions, cut off, from ten millions on.
pub proof fn short_counts_are_cut_off(n: nat, k: nat)
    ensures
        n < 1000 ==> short_count(n) == dec(n),
        1000 <= n < 1_000_000 && 1000 * k <= n < 1000 * (k + 1) ==> short_count(n) == dec(k)
            + "k"@,
        n >= 10_000_000 && 1_000_000 * k <= n < 1_000_000 * (k + 1) ==> short_count(n) == dec(k)
            + "M"@,
        1_000_000 <= n < 10_000_000 ==> ends_in(short_count(n), "M"@),
{
    reveal_strlit("M");
}

// ---------------------------------------------------------------------------
// Limits
// ---------------------------------------------------------------------------

/// The limit of five hours stands first under its name, and that of seven days after it
/// under its own; each says how much of its own window is used.
pub proof fn limits_stand_under_their_names(
    five: RateLimitWindow,
    seven: RateLimitWindow,
    p: Double,
    q: Double,
    now: int,
)
    requires
        five.used_percentage == Some(p),
        seven.used_percentage == Some(q),
    ensures
        ({
            let both = RateLimits { five_hour: Some(five), seven_day: Some(seven) };
            let one = RateLimits { five_hour: Some(five), seven_day: None };
            let other = RateLimits { five_hour: None, seven_day: Some(seven) };
            let none = RateLimits { five_hour: None, seven_day: None };
            &&& limits_piece(both, now, false) == Some(
                "5h:"@ + dec_int(p.rounded()) + "% 7d:"@ + dec_int(q.rounded()) + "%"@,
            )
            &&& limits_piece(one, now, false) == Some("5h:"@ + dec_int(p.rounded()) + "%"@)
            &&& limits_piece(other, now, false) == Some("7d:"@ + dec_int(q.rounded()) + "%"@)
            &&& limits_piece(none, now, false) is None
        }),
{
    reveal_strlit("5h");
    reveal_strlit("7d");
    reveal_strlit(":");
    reveal_strlit("%");
    reveal_strlit(" ");
    reveal_strlit("5h:");
    reveal_strlit("7d:");
    reveal_strlit("% 7d:");
    let five_text = "5h"@ + ":"@ + dec_int(p.rounded()) + "%"@;
    let seven_text = "7d"@ + ":"@ + dec_int(q.rounded()) + "%"@;
    assert(five_text =~= "5h:"@ + dec_int(p.rounded()) + "%"@);
    assert(seven_text =~= "7d:"@ + dec_int(q.rounded()) + "%"@);
    assert(five_text + " "@ + seven_text =~= "5h:"@ + dec_int(p.rounded()) + "% 7d:"@ + dec_int(
        q.rounded(),
    ) + "%"@);
}

/// A window says how long it lasts in brackets where that is asked for, it is known and the
/// window has not ended; it is its own end that it speaks of.
pub proof fn a_window_counts_down_to_its_own_end(
    label: Seq<char>,
    w: RateLimitWindow,
    p: Double,
    end: i64,
    now: int,
    text: Seq<char>,
)
    requires
        w.used_percentage == Some(p),
        w.resets_at == Some(end),
    ensures
        countdown(end - now) == Some(text) ==> window_piece(label, Some(w), now, true) == Some(
            label + ":"@ + dec_int(p.rounded()) + "%"@ + " ("@ + text + ")"@,
        ),
        end <= now ==> window_piece(label, Some(w), now, true) == window_piece(
            label,
            Some(w),
            now,
            false,
        ),
        window_piece(label, Some(w), now, false) == Some(label + ":"@ + dec_int(p.rounded()) + "%"@),
{
}

/// A window of which it is not known how much is used says nothing.
pub proof fn unknown_windows_say_nothing(label: Seq<char>, w: RateLimitWindow, now: int, show: bool)
    requires
        w.used_percentage is None,
    ensures
        window_piece(label, Some(w), now, show) is None,
        window_piece(label, None, now, show) is None,
{
}

// ---------------------------------------------------------------------------
// Agents and cache
// ---------------------------------------------------------------------------

/// Agents show where there are any: their number, and then their share, which says nothing
/// about the main conversation's output or requests.
pub proof fn agents_show_by_number(s: AgentsSummary, other: AgentsSummary)
    requires
        s.agent_files == other.agent_files,
        s.agents.input_tokens == other.agents.input_tokens,
        s.agents.cache_read_tokens == other.agents.cache_read_tokens,
        s.agents.cache_creation_tokens == other.agents.cache_creation_tokens,
        s.main.input_tokens == other.main.input_tokens,
        s.main.cache_read_tokens == other.main.cache_read_tokens,
        s.main.cache_creation_tokens == other.main.cache_creation_tokens,
    ensures
        agents_piece(s) is None <==> s.agent_files == 0,
        s.agent_files > 0 ==> begins_with(
            agents_piece(s)->Some_0,
            "🤖"@ + dec(s.agent_files as nat),
        ),
        agents_piece(s) == agents_piece(other),
        s.agent_files > 0 && s.main.input_tokens == 0 && s.main.cache_read_tokens == 0
            && s.main.cache_creation_tokens == 0 && s.agents.input_tokens == 0
            && s.agents.cache_read_tokens == 0 && s.agents.cache_creation_tokens == 0
            ==> agents_piece(s) == Some("🤖"@ + dec(s.agent_files as nat)),
{
}

/// The cache shows its hits in percent, then its misses where there are any, and then the
/// first cause of the last miss; causes without a miss do not show.
pub proof fn the_cache_shows_hits_and_misses(pc: PromptCache, r: Double, n: u64)
    requires
        pc.hit_ratio == Some(r),
    ensures
        ({
            let hit = "cache "@ + r.times(100).digits(0) + "%"@;
            let piece = prompt_cache_piece(pc);
            &&& piece is Some && begins_with(piece->Some_0, hit)
            &&& pc.misses is None || pc.misses == Some(0u64) ==> piece == Some(hit)
            &&& pc.misses == Some(n) && n > 0 && pc.last_miss_causes@.len() == 0 ==> piece == Some(
                hit + " "@ + ("miss:"@ + dec(n as nat)),
            )
            &&& pc.misses == Some(n) && n > 0 && pc.last_miss_causes@.len() > 0 ==> piece == Some(
                hit + " "@ + ("miss:"@ + dec(n as nat)) + " "@ + pc.last_miss_causes@[0]@,
            )
        }),
{
}

/// Where hits are not known, misses stand alone, and without either there is nothing to say.
pub proof fn misses_stand_alone(pc: PromptCache, n: u64)
    requires
        pc.hit_ratio is None,
        pc.last_miss_causes@.len() == 0,
    ensures
        pc.misses == Some(n) && n > 0 ==> prompt_cache_piece(pc) == Some("miss:"@ + dec(n as nat)),
        pc.misses is None || pc.misses == Some(0u64) ==> prompt_cache_piece(pc) is None,
{
}

// ---------------------------------------------------------------------------
// Context
// ---------------------------------------------------------------------------

/// The context shows its percentage, rounded, and a bar in square brackets, both in the
/// colour of the percentage; then a warning where a compaction is near, or a mark where
/// one is just over.
pub proof fn the_context_shows_percentage_and_bar(
    colors: Colors,
    usage: ContextUsage,
    width: nat,
)
    requires
        !(usage.compaction_state is InProgress),
    ensures
        ({
            let piece = context_piece(colors, usage, None, None, width, false);
            let color = colors.context_code(usage.percentage);
            let reset = colors.reset_code();
            let both = color + dec(usage.percentage.rounded_count()) + "%"@ + reset + " "@ + color
                + "["@ + bar_cells(usage.percentage, width) + "]"@ + reset;
            &&& begins_with(piece, both)
            &&& usage.compaction_state is Normal && !usage.approaching_limit ==> piece == both
            &&& usage.compaction_state is Normal && usage.approaching_limit ==> piece == both
                + " "@ + colors.code(colors.theme.orange@) + "⚠"@ + reset
            &&& usage.compaction_state is RecentlyCompleted ==> piece == both + " "@ + colors.code(
                colors.theme.green@,
            ) + "✓"@ + reset
        }),
{
    let piece = context_piece(colors, usage, None, None, width, false);
    let color = colors.context_code(usage.percentage);
    let reset = colors.reset_code();
    let both = color + dec(usage.percentage.rounded_count()) + "%"@ + reset + " "@ + color + "["@
        + bar_cells(usage.percentage, width) + "]"@ + reset;
    let shown = crate::display::context::percentage_and_bar(colors, usage.percentage, width);
    assert(shown =~= both);
    if usage.compaction_state is RecentlyCompleted {
        assert(piece =~= both + " "@ + colors.code(colors.theme.green@) + "✓"@ + reset);
    } else if usage.approaching_limit {
        assert(piece =~= both + " "@ + colors.code(colors.theme.orange@) + "⚠"@ + reset);
    } else {
        assert(piece =~= both);
    }
}

/// While a compaction is under way, the context shows that and no percentage.
pub proof fn a_compaction_hides_the_percentage(
    colors: Colors,
    usage: ContextUsage,
    other: ContextUsage,
    width: nat,
)
    requires
        usage.compaction_state is InProgress,
        other.compaction_state is InProgress,
    ensures
        context_piece(colors, usage, None, None, width, false) == colors.code(
            colors.theme.yellow@,
        ) + "Compacting..."@ + colors.reset_code(),
        context_piece(colors, usage, None, None, width, false) == context_piece(
            colors,
            other,
            None,
            None,
            width,
            false,
        ),
{
}

/// Behind the context stand, where they are asked for and known, the tokens in it and the
/// tokens it holds, in this order; nothing else of the context changes with them.
pub proof fn tokens_stand_behind_the_context(
    colors: Colors,
    usage: ContextUsage,
    tokens: u32,
    window: u64,
    width: nat,
)
    ensures
        ({
            let plain = context_piece(colors, usage, None, None, width, true);
            &&& context_piece(colors, usage, Some(tokens), Some(window), width, true) == plain
                + " "@ + colors.code(colors.theme.light_gray@) + token_count(tokens as nat) + "/"@
                + token_count(window as nat) + colors.reset_code()
            &&& context_piece(colors, usage, Some(tokens), Some(window), width, false) == plain
            &&& context_piece(colors, usage, Some(tokens), None, width, true) == plain
            &&& context_piece(colors, usage, None, Some(window), width, true) == plain
        }),
{
    let plain = context_piece(colors, usage, None, None, width, true);
    let tail = " "@ + colors.code(colors.theme.light_gray@) + token_count(tokens as nat) + "/"@
        + token_count(window as nat) + colors.reset_code();
    let e = Seq::<char>::empty();
    let shown = crate::display::context::percentage_and_bar(colors, usage.percentage, width);
    assert(plain + tail =~= plain + " "@ + colors.code(colors.theme.light_gray@) + token_count(
        tokens as nat,
    ) + "/"@ + token_count(window as nat) + colors.reset_code());
    assert(plain + e =~= plain);
    assert(context_piece(colors, usage, Some(tokens), Some(window), width, true) =~= plain + tail);
}

/// A bar is filled from its left: up to where it is filled it has one mark, then a head,
/// and then another mark.
pub proof fn bars_are_filled_from_the_left(p: Double, width: nat, i: int)
    requires
        0 <= i < width,
    ensures
        i < filled_cells(p, width) ==> bar_cells(p, width)[i] == '=',
        i == filled_cells(p, width) ==> bar_cells(p, width)[i] == '>',
        i > filled_cells(p, width) ==> bar_cells(p, width)[i] == '-',
{
    reveal_strlit(">");
}

// ---------------------------------------------------------------------------
// Rates
// ---------------------------------------------------------------------------

/// Settings of the rates under which nothing but rates shows.
pub open spec fn only_rates(component: TokenRateComponentConfig, config: TokenRateConfig) -> bool {
    !component.show_session_total && !component.show_daily_total && !config.cache_metrics
}

/// The rates show in detail what goes in, fresh and from the cache, and what comes out, or
/// one of the two; else they show all together.
pub proof fn rates_show_what_is_asked_for(
    colors: Colors,
    x: TokenRateMetrics,
    component: TokenRateComponentConfig,
    config: TokenRateConfig,
)
    requires
        only_rates(component, config),
        component.time_unit@ == "second"@,
    ensures
        ({
            let piece = rates_piece(colors, x, component, config);
            let gray = colors.code(colors.theme.light_gray@);
            let reset = colors.reset_code();
            let unit = component.time_unit@;
            let taken = rate_in_unit(x.input_rate.plus(x.cache_read_rate), unit);
            let given = rate_in_unit(x.output_rate, unit);
            let all = rate_in_unit(x.total_rate, unit);
            let detailed = config.display_mode@ == "detailed"@;
            &&& detailed && config.rate_display@ == "output_only"@ ==> piece == gray + "Out:"@
                + given + " tok/s"@ + reset
            &&& detailed && config.rate_display@ == "input_only"@ ==> piece == gray + "In:"@
                + taken + " tok/s"@ + reset
            &&& detailed && config.rate_display@ == "both"@ ==> piece == gray + "In:"@ + taken
                + " Out:"@ + given + " tok/s"@ + reset
            &&& !detailed ==> piece == gray + all + " tok/s"@ + reset
        }),
{
    lemma_rate_words();
    let piece = rates_piece(colors, x, component, config);
    let gray = colors.code(colors.theme.light_gray@);
    let reset = colors.reset_code();
    let unit = component.time_unit@;
    let taken = rate_in_unit(x.input_rate.plus(x.cache_read_rate), unit);
    let given = rate_in_unit(x.output_rate, unit);
    let all = rate_in_unit(x.total_rate, unit);
    if config.display_mode@ == "detailed"@ {
        if config.rate_display@ == "output_only"@ {
            assert(piece =~= gray + "Out:"@ + given + " tok/s"@ + reset);
        } else if config.rate_display@ == "input_only"@ {
            assert(piece =~= gray + "In:"@ + taken + " tok/s"@ + reset);
        } else {
            assert(piece =~= gray + "In:"@ + taken + " Out:"@ + given + " tok/s"@ + reset);
        }
    } else {
        assert(piece =~= gray + all + " tok/s"@ + reset);
    }
}

proof fn lemma_rate_words()
    ensures
        "second"@ != "minute"@,
        "second"@ != "hour"@,
        "hour"@ != "minute"@,
        "output_only"@ != "input_only"@,
        "output_only"@ != "both"@,
        "input_only"@ != "both"@,
        ""@.len() == 0,
        " "@ + "tok/s"@ == " tok/s"@,
{
    reveal_strlit("second");
    reveal_strlit("minute");
    reveal_strlit("hour");
    reveal_strlit("output_only");
    reveal_strlit("input_only");
    reveal_strlit("both");
    reveal_strlit("");
    reveal_strlit(" ");
    reveal_strlit("tok/s");
    reveal_strlit(" tok/s");
    assert("second"@[0] == 's' && "minute"@[0] == 'm');
    assert("hour"@.len() == 4 && "second"@.len() == 6 && "minute"@.len() == 6);
    assert("output_only"@.len() == 11 && "input_only"@.len() == 10 && "both"@.len() == 4);
    assert(" "@ + "tok/s"@ =~= " tok/s"@);
}

/// Behind the rates stand the session's tokens and then the day's, each where it is asked
/// for and there are any; each is its own count.
pub proof fn totals_stand_behind_the_rates(
    colors: Colors,
    x: TokenRateMetrics,
    component: TokenRateComponentConfig,
    plain: TokenRateComponentConfig,
    config: TokenRateConfig,
)
    requires
        plain.time_unit@ == component.time_unit@,
        !plain.show_session_total,
        !plain.show_daily_total,
    ensures
        ({
            let rates = rates_piece(colors, x, plain, config);
            let gray = colors.code(colors.theme.light_gray@);
            let reset = colors.reset_code();
            let session = " "@ + gray + token_count(x.session_total_tokens as nat) + reset;
            let day = " "@ + gray + "day: "@ + token_count(x.daily_total_tokens as nat) + reset;
            let a = component.show_session_total && x.session_total_tokens > 0;
            let b = component.show_daily_total && x.daily_total_tokens > 0;
            let piece = rates_piece(colors, x, component, config);
            &&& a && b ==> piece == rates + session + day
            &&& a && !b ==> piece == rates + session
            &&& !a && b ==> piece == rates + day
            &&& !a && !b ==> piece == rates
        }),
{
    let rates = rates_piece(colors, x, plain, config);
    let gray = colors.code(colors.theme.light_gray@);
    let reset = colors.reset_code();
    let session = " "@ + gray + token_count(x.session_total_tokens as nat) + reset;
    let day = " "@ + gray + "day: "@ + token_count(x.daily_total_tokens as nat) + reset;
    let e = Seq::<char>::empty();
    assert(rates + e =~= rates);
    let in_mode = crate::display::rates::rates_in_mode(colors, x, plain.time_unit@, config);
    assert(rates =~= in_mode);
    assert(rates + session + e =~= rates + session);
    assert(" "@ + (gray + "day: "@ + token_count(x.daily_total_tokens as nat) + reset) =~= day);
    assert(" "@ + (gray + token_count(x.session_total_tokens as nat) + reset) =~= session);
}

} // verus!
