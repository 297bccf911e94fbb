//! What the line says.

use crate::config::LineConfig;
use crate::display::colors::Colors;
use crate::display::context::{CompactionState, ContextWindow};
use crate::display::line::{
    burn_rate, cost_piece, first_parts, git_piece, last_parts, lasted, line_text, lines_piece,
    middle_parts, separator, shown_context, shown_context_piece, Cost, GitFacts, LineFacts,
    PayloadExtras,
};
use crate::display::pieces::{agents_piece, duration_digits, limits_piece, prompt_cache_piece};
use crate::display::rates::rates_piece;
use crate::double::Double;
use crate::laws::numbers::amounts_hold_no_dollar;
use crate::laws::words::{begins_with, ends_in, is_found, is_free_of, lemma_found, lemma_last_mark};
use crate::text::dec;
use crate::utils::cleaned;
use vstd::prelude::*;

verus! {

// ---------------------------------------------------------------------------
// The context
// ---------------------------------------------------------------------------

/// Whether the payload says how full the context is: by a percentage, or by what is in it
/// and how much it holds.
pub open spec fn tells_usage(cw: ContextWindow) -> bool {
    ||| cw.used_percentage is Some
    ||| cw.total_input_tokens is Some && (cw.context_window_size matches Some(w) && w > 0)
}

/// Where the payload says how full the context is, that is what is shown, whatever the
/// transcript lets estimate.
pub proof fn the_payload_goes_first(
    facts: LineFacts,
    other: LineFacts,
    extras: PayloadExtras,
    cw: ContextWindow,
    threshold: Double,
)
    requires
        extras.context_window matches Some(w) && *w == cw,
        tells_usage(cw),
    ensures
        shown_context(facts, extras, threshold) == shown_context(other, extras, threshold),
        ({
            let shown = shown_context(facts, extras, threshold);
            &&& shown is Some
            &&& shown->Some_0.window == cw.context_window_size
            &&& (shown->Some_0.tokens is Some <==> cw.total_input_tokens is Some)
            &&& cw.total_input_tokens matches Some(n) ==> (n <= u32::MAX
                ==> shown->Some_0.tokens == Some(n as u32))
            &&& cw.used_percentage matches Some(p) ==> (p.at_most(Double::whole(100))
                ==> shown->Some_0.usage.percentage == p)
            &&& cw.used_percentage matches Some(p) ==> (!p.at_most(Double::whole(100))
                ==> shown->Some_0.usage.percentage == Double::whole(100))
            &&& shown->Some_0.usage.compaction_state == CompactionState::Normal
        }),
{
}

/// Where the payload does not say how full the context is, what is shown is what the
/// transcript lets estimate.
pub proof fn the_transcript_fills_in(facts: LineFacts, extras: PayloadExtras, threshold: Double)
    requires
        extras.context_window matches Some(cw) ==> !tells_usage(*cw),
    ensures
        shown_context(facts, extras, threshold) == facts.transcript_context,
{
}

/// A percentage that the payload gives is believed, whatever the counts beside it say.
pub proof fn the_percentage_goes_before_the_counts(
    facts: LineFacts,
    extras: PayloadExtras,
    others: PayloadExtras,
    cw: ContextWindow,
    also: ContextWindow,
    p: Double,
    threshold: Double,
)
    requires
        extras.context_window matches Some(w) && *w == cw,
        others.context_window matches Some(w) && *w == also,
        cw.used_percentage == Some(p),
        also.used_percentage == Some(p),
    ensures
        ({
            let a = shown_context(facts, extras, threshold)->Some_0.usage;
            let b = shown_context(facts, others, threshold)->Some_0.usage;
            &&& a.percentage == b.percentage
            &&& a.approaching_limit == b.approaching_limit
        }),
{
}

/// A compaction is near from the threshold on, and not before.
pub proof fn compaction_is_near_from_the_threshold_on(
    facts: LineFacts,
    extras: PayloadExtras,
    cw: ContextWindow,
    p: Double,
    threshold: Double,
)
    requires
        extras.context_window matches Some(w) && *w == cw,
        cw.used_percentage == Some(p),
    ensures
        shown_context(facts, extras, threshold)->Some_0.usage.approaching_limit
            == threshold.at_most(p),
{
}

/// What is left of the context is what it holds less what is in it, and nothing where it
/// is over full or where one of the two is not known.
pub proof fn what_is_left_of_the_context(
    facts: LineFacts,
    extras: PayloadExtras,
    cw: ContextWindow,
    threshold: Double,
)
    requires
        extras.context_window matches Some(w) && *w == cw,
        tells_usage(cw),
    ensures
        ({
            let left = shown_context(facts, extras, threshold)->Some_0.usage.tokens_remaining;
            &&& (cw.context_window_size matches Some(w) ==> (cw.total_input_tokens matches Some(
                n,
            ) ==> (n <= w ==> left + n == w) && (n > w ==> left == 0)))
            &&& cw.context_window_size is None || cw.total_input_tokens is None ==> left == 0
        }),
{
}

/// The context on the line is the one that is shown, of the width and with the tokens that
/// are asked for.
pub proof fn only_the_shown_context_is_written(
    colors: Colors,
    facts: LineFacts,
    other: LineFacts,
    extras: PayloadExtras,
    others: PayloadExtras,
    config: LineConfig,
)
    requires
        shown_context(facts, extras, config.context_threshold) == shown_context(
            other,
            others,
            config.context_threshold,
        ),
    ensures
        shown_context_piece(colors, facts, extras, config) == shown_context_piece(
            colors,
            other,
            others,
            config,
        ),
        shown_context_piece(colors, facts, extras, config) is Some <==> shown_context(
            facts,
            extras,
            config.context_threshold,
        ) is Some,
{
}

// ---------------------------------------------------------------------------
// The cost
// ---------------------------------------------------------------------------

/// What a session is said to cost.
pub open spec fn said_cost(facts: LineFacts) -> Option<Double> {
    match facts.cost {
        Some(c) => c.total_cost_usd,
        None => None,
    }
}

/// The cost of a session stands first, in its colour, with two places.
pub proof fn the_cost_stands_first(colors: Colors, facts: LineFacts, least: u64, t: Double)
    requires
        said_cost(facts) == Some(t),
    ensures
        cost_piece(colors, facts, least) matches Some(piece) && begins_with(
            piece,
            colors.cost_code(t) + "$"@ + t.digits(2) + colors.reset_code(),
        ),
{
}

/// Whenever the day has cost more than the session, the cost ends with the day's total in
/// brackets: the day's, with two places, in the day's colour.
pub proof fn the_day_stands_in_brackets(colors: Colors, facts: LineFacts, least: u64, t: Double)
    requires
        said_cost(facts) == Some(t),
        t.below(facts.daily_total),
    ensures
        cost_piece(colors, facts, least) matches Some(piece) && ends_in(
            piece,
            "(day: "@ + colors.cost_code(facts.daily_total) + "$"@ + facts.daily_total.digits(2)
                + ")"@ + colors.reset_code(),
        ),
{
    let piece = cost_piece(colors, facts, least)->Some_0;
    let daily = facts.daily_total;
    let reset = colors.reset_code();
    let bracket = "(day: "@ + colors.cost_code(daily) + "$"@ + daily.digits(2) + ")"@ + reset;
    let whole = " "@ + reset + "(day: "@ + colors.cost_code(daily) + "$"@ + daily.digits(2) + ")"@
        + reset;
    assert(whole =~= " "@ + reset + bracket);
    assert(exists|front: Seq<char>| piece == #[trigger] (front + whole));
    let front = choose|front: Seq<char>| piece == #[trigger] (front + whole);
    assert(piece =~= (front + " "@ + reset) + bracket);
    assert(piece.skip(piece.len() - bracket.len()) =~= bracket);
}

/// Where the day has not cost more than the session, the day's total does not show.
pub proof fn no_brackets_for_less(
    colors: Colors,
    facts: LineFacts,
    other: LineFacts,
    least: u64,
    t: Double,
)
    requires
        said_cost(facts) == Some(t),
        other == (LineFacts { daily_total: other.daily_total, ..facts }),
        !t.below(facts.daily_total),
        !t.below(other.daily_total),
    ensures
        cost_piece(colors, facts, least) == cost_piece(colors, other, least),
{
}

/// Where no session's cost is known, the day's total stands alone, if there is any.
pub proof fn the_day_stands_alone(colors: Colors, facts: LineFacts, least: u64)
    requires
        said_cost(facts) is None,
    ensures
        ({
            let piece = cost_piece(colors, facts, least);
            let daily = facts.daily_total;
            &&& piece is Some <==> daily.is_positive()
            &&& piece is Some ==> begins_with(piece->Some_0, "day: "@ + colors.cost_code(daily))
                && ends_in(
                piece->Some_0,
                colors.cost_code(daily) + "$"@ + daily.digits(2) + colors.reset_code(),
            )
        }),
{
    let daily = facts.daily_total;
    if daily.is_positive() {
        let tail = colors.cost_code(daily) + "$"@ + daily.digits(2) + colors.reset_code();
        let piece = "day: "@ + tail;
        assert(cost_piece(colors, facts, least) == Some(piece));
        assert(piece.take(("day: "@ + colors.cost_code(daily)).len() as int) =~= "day: "@
            + colors.cost_code(daily));
        assert(piece.skip(piece.len() - tail.len()) =~= tail);
    }
}

/// What a session costs an hour stands in brackets with two places where it has lasted
/// long enough for that and costs anything, and nowhere else.
pub proof fn the_hour_stands_in_brackets(colors: Colors, facts: LineFacts, least: u64, t: Double)
    requires
        said_cost(facts) == Some(t),
    ensures
        ({
            let piece = cost_piece(colors, facts, least)->Some_0;
            let rate = burn_rate(
                t,
                lasted(
                    facts.session_duration,
                    facts.transcript_duration,
                    facts.cost->Some_0.total_duration_ms,
                ),
                least,
            );
            &&& (rate matches Some(r) && r.is_positive()) ==> is_found(
                piece,
                "($"@ + rate->Some_0.digits(2) + "/hr)"@,
            )
            &&& (rate matches Some(r) ==> !r.is_positive()) && !t.below(facts.daily_total) ==> piece
                == colors.cost_code(t) + "$"@ + t.digits(2) + colors.reset_code()
        }),
{
    let piece = cost_piece(colors, facts, least)->Some_0;
    let reset = colors.reset_code();
    let gray = colors.code(colors.theme.light_gray@);
    let rate = burn_rate(
        t,
        lasted(
            facts.session_duration,
            facts.transcript_duration,
            facts.cost->Some_0.total_duration_ms,
        ),
        least,
    );
    let a = colors.cost_code(t) + "$"@ + t.digits(2) + reset;
    if rate is Some && rate->Some_0.is_positive() {
        let p = "($"@ + rate->Some_0.digits(2) + "/hr)"@;
        let b = " "@ + gray + "($"@ + rate->Some_0.digits(2) + "/hr)"@ + reset;
        assert(exists|c: Seq<char>| piece == #[trigger] (a + b + c));
        let c = choose|c: Seq<char>| piece == #[trigger] (a + b + c);
        assert(piece =~= (a + " "@ + gray) + p + (reset + c));
        lemma_found(a + " "@ + gray, p, reset + c);
    } else if !t.below(facts.daily_total) {
        assert(piece =~= a);
    }
}

/// What a session costs an hour shows only of one that has lasted longer than the shortest
/// time for which a rate is given, and not of one of unknown duration.
pub proof fn short_sessions_have_no_rate(cost: Double, duration: Option<u64>, least: u64)
    ensures
        burn_rate(cost, duration, least) is Some <==> (duration matches Some(d) && d > least),
{
}

/// How long a session has lasted is as it was counted, or else as its transcript spans, or
/// else as the payload says in milliseconds.
pub proof fn durations_in_their_order(session: u64, transcript: u64, ms: u64, any: Option<u64>, also: Option<u64>)
    ensures
        lasted(Some(session), any, also) == Some(session),
        lasted(None, Some(transcript), any) == Some(transcript),
        lasted(None, None, Some(ms)) matches Some(s) && s * 1000 <= ms < (s + 1) * 1000,
        lasted(None, None, None) is None,
{
}

/// Lines added stand behind a plus in their colour, lines removed behind a minus in theirs;
/// a count of none does not stand there, and neither does one where the other is not known.
pub proof fn lines_stand_behind_their_signs(colors: Colors, c: Cost, added: u64, removed: u64)
    requires
        c.total_lines_added == Some(added),
        c.total_lines_removed == Some(removed),
    ensures
        ({
            let piece = lines_piece(colors, Some(&c));
            let plus = colors.code(colors.theme.lines_added@) + "+"@ + dec(added as nat)
                + colors.reset_code();
            let minus = colors.code(colors.theme.lines_removed@) + "-"@ + dec(removed as nat)
                + colors.reset_code();
            &&& piece is None <==> added == 0 && removed == 0
            &&& added > 0 && removed == 0 ==> piece == Some(plus)
            &&& added == 0 && removed > 0 ==> piece == Some(minus)
            &&& added > 0 && removed > 0 ==> begins_with(piece->Some_0, plus + " "@) && ends_in(
                piece->Some_0,
                " "@ + minus,
            )
        }),
{
    reveal_strlit(" ");
}

/// Lines do not show where one of the counts is not known.
pub proof fn lines_show_together(colors: Colors, c: Cost)
    requires
        c.total_lines_added is None || c.total_lines_removed is None,
    ensures
        lines_piece(colors, Some(&c)) is None,
        lines_piece(colors, None) is None,
{
}

// ---------------------------------------------------------------------------
// The line as a whole
// ---------------------------------------------------------------------------

/// The parts that there are, in their order, with the separator between any two.
pub open spec fn all_of(parts: Seq<Option<Seq<char>>>, sep: Seq<char>) -> Option<Seq<char>>
    decreases parts.len(),
{
    if parts.len() == 0 {
        None
    } else {
        match (all_of(parts.drop_last(), sep), parts.last()) {
            (Some(before), Some(part)) => Some(before + sep + part),
            (Some(before), None) => Some(before),
            (None, last) => last,
        }
    }
}

/// A part, if it is asked for and there is one.
pub open spec fn if_asked(flag: bool, part: Option<Seq<char>>) -> Option<Seq<char>> {
    if flag && part is Some {
        part
    } else {
        None
    }
}

/// A text between a colour and the end of colours.
pub open spec fn in_color(colors: Colors, code: Seq<char>, text: Seq<char>) -> Option<Seq<char>> {
    Some(colors.code(code) + text + colors.reset_code())
}

/// Mark of a test, directory, working copy and context, each under the setting that asks
/// for it.
pub open spec fn asked_first(
    colors: Colors,
    facts: LineFacts,
    extras: PayloadExtras,
    config: LineConfig,
) -> Seq<Option<Seq<char>>> {
    let d = config.display;
    seq![
        if_asked(facts.test_mode, in_color(colors, colors.theme.yellow@, "[TEST]"@)),
        if_asked(d.show_directory, in_color(colors, colors.theme.directory@, facts.short_dir@)),
        if_asked(d.show_git, git_piece(facts.git)),
        if_asked(d.show_context, shown_context_piece(colors, facts, extras, config)),
    ]
}

/// Model, duration and lines, each under the setting that asks for it.
pub open spec fn asked_next(colors: Colors, facts: LineFacts, config: LineConfig) -> Seq<
    Option<Seq<char>>,
> {
    let d = config.display;
    seq![
        if_asked(
            d.show_model,
            match facts.model {
                Some(m) => in_color(colors, colors.theme.model@, cleaned(m.abbreviation@)),
                None => None,
            },
        ),
        if_asked(
            d.show_duration,
            match facts.transcript_duration {
                Some(s) => in_color(colors, colors.theme.duration@, duration_digits(s as nat)),
                None => None,
            },
        ),
        if_asked(d.show_lines_changed, lines_piece(colors, facts.cost)),
    ]
}

/// The cost, under the setting that asks for it.
pub open spec fn asked_cost(colors: Colors, facts: LineFacts, config: LineConfig) -> Option<
    Seq<char>,
> {
    if_asked(
        config.display.show_cost,
        cost_piece(colors, facts, config.burn_rate.min_duration_seconds),
    )
}

/// Agents, cache and limits, each under the setting that asks for it, and rates.
pub open spec fn asked_last(
    colors: Colors,
    facts: LineFacts,
    extras: PayloadExtras,
    config: LineConfig,
) -> Seq<Option<Seq<char>>> {
    let d = config.display;
    let gray = colors.theme.light_gray@;
    seq![
        if_asked(
            d.show_agents,
            match extras.agents {
                Some(s) => match agents_piece(*s) {
                    Some(t) => in_color(colors, gray, t),
                    None => None,
                },
                None => None,
            },
        ),
        if_asked(
            d.show_prompt_cache,
            match extras.prompt_cache {
                Some(p) => match prompt_cache_piece(*p) {
                    Some(t) => in_color(colors, gray, t),
                    None => None,
                },
                None => None,
            },
        ),
        if_asked(
            d.show_rate_limits,
            match extras.rate_limits {
                Some(l) => match limits_piece(*l, facts.now as int, d.rate_limit_reset_countdown) {
                    Some(t) => in_color(colors, gray, t),
                    None => None,
                },
                None => None,
            },
        ),
        match facts.token_rates {
            Some(x) => Some(
                rates_piece(colors, *x, config.layout.components.token_rate, config.token_rate),
            ),
            None => None,
        },
    ]
}

/// The line has the parts that are asked for and have something to say, and no others, in
/// one order: mark of a test, directory, working copy, context, model, duration, lines,
/// cost, agents, cache, limits, rates; between any two of them stands the separator.
pub proof fn parts_stand_in_their_order(
    colors: Colors,
    facts: LineFacts,
    extras: PayloadExtras,
    config: LineConfig,
)
    ensures
        ({
            let all = all_of(
                asked_first(colors, facts, extras, config) + asked_next(colors, facts, config)
                    + seq![asked_cost(colors, facts, config)] + asked_last(
                    colors,
                    facts,
                    extras,
                    config,
                ),
                separator(colors),
            );
            line_text(colors, facts, extras, config) == match all {
                Some(t) => t,
                None => Seq::empty(),
            }
        }),
{
    let sep = separator(colors);
    let a = asked_first(colors, facts, extras, config);
    let b = asked_next(colors, facts, config) + seq![asked_cost(colors, facts, config)];
    let c = asked_last(colors, facts, extras, config);
    assert(a + asked_next(colors, facts, config) + seq![asked_cost(colors, facts, config)] + c
        =~= a + b + c);
    lemma_all_of(a + b, c, sep);
    lemma_all_of(a, b, sep);
    lemma_first(colors, facts, extras, config, sep);
    lemma_middle(colors, facts, config, sep);
    lemma_last(colors, facts, extras, config, sep);
}

proof fn lemma_first(
    colors: Colors,
    facts: LineFacts,
    extras: PayloadExtras,
    config: LineConfig,
    sep: Seq<char>,
)
    ensures
        all_of(asked_first(colors, facts, extras, config), sep) == first_parts(
            colors,
            facts,
            extras,
            config,
            sep,
        ),
{
    lemma_four(asked_first(colors, facts, extras, config), sep);
}

proof fn lemma_middle(colors: Colors, facts: LineFacts, config: LineConfig, sep: Seq<char>)
    ensures
        all_of(asked_next(colors, facts, config) + seq![asked_cost(colors, facts, config)], sep)
            == middle_parts(colors, facts, config, sep),
{
    lemma_four(asked_next(colors, facts, config) + seq![asked_cost(colors, facts, config)], sep);
}

proof fn lemma_last(
    colors: Colors,
    facts: LineFacts,
    extras: PayloadExtras,
    config: LineConfig,
    sep: Seq<char>,
)
    ensures
        all_of(asked_last(colors, facts, extras, config), sep) == last_parts(
            colors,
            facts,
            extras,
            config,
            sep,
        ),
{
    lemma_four(asked_last(colors, facts, extras, config), sep);
}

proof fn lemma_four(p: Seq<Option<Seq<char>>>, sep: Seq<char>)
    requires
        p.len() == 4,
    ensures
        all_of(p, sep) == crate::text::joined_opt(
            crate::text::joined_opt(crate::text::joined_opt(p[0], sep, p[1]), sep, p[2]),
            sep,
            p[3],
        ),
{
    reveal_with_fuel(all_of, 5);
    let a = p.drop_last();
    let b = a.drop_last();
    let c = b.drop_last();
    assert(c.drop_last() =~= Seq::empty());
}

/// Parts that are put together in two steps are put together.
proof fn lemma_all_of(a: Seq<Option<Seq<char>>>, b: Seq<Option<Seq<char>>>, sep: Seq<char>)
    ensures
        all_of(a + b, sep) == (match (all_of(a, sep), all_of(b, sep)) {
            (Some(x), Some(y)) => Some(x + sep + y),
            (Some(x), None) => Some(x),
            (None, y) => y,
        }),
    decreases b.len(),
{
    if b.len() == 0 {
        assert(a + b =~= a);
    } else {
        assert((a + b).drop_last() =~= a + b.drop_last());
        lemma_all_of(a, b.drop_last(), sep);
        match (all_of(a, sep), all_of(b.drop_last(), sep), b.last()) {
            (Some(x), Some(y), Some(z)) => {
                assert(x + sep + y + sep + z =~= x + sep + (y + sep + z));
            },
            _ => {},
        }
    }
}

/// Two lines that differ in the day's total alone, both above the session's cost, differ
/// wherever the totals differ in what two places show.
pub proof fn the_days_total_shows(
    colors: Colors,
    facts: LineFacts,
    other: LineFacts,
    extras: PayloadExtras,
    config: LineConfig,
    t: Double,
)
    requires
        config.display.show_cost,
        said_cost(facts) == Some(t),
        other == (LineFacts { daily_total: other.daily_total, ..facts }),
        t.below(facts.daily_total),
        t.below(other.daily_total),
        facts.daily_total.digits(2) != other.daily_total.digits(2),
    ensures
        line_text(colors, facts, extras, config) != line_text(colors, other, extras, config),
{
    let least = config.burn_rate.min_duration_seconds;
    let a = cost_piece(colors, facts, least)->Some_0;
    let b = cost_piece(colors, other, least)->Some_0;
    lemma_around_cost(colors, facts, extras, config, a);
    lemma_around_cost(colors, other, extras, config, b);
    let front = before_cost(colors, facts, extras, config);
    let back = after_cost(colors, facts, extras, config);
    assert(asked_first(colors, facts, extras, config) =~= asked_first(colors, other, extras, config));
    assert(asked_next(colors, facts, config) =~= asked_next(colors, other, config));
    assert(asked_last(colors, facts, extras, config) =~= asked_last(colors, other, extras, config));
    assert(front == before_cost(colors, other, extras, config));
    assert(back == after_cost(colors, other, extras, config));
    if front + a + back == front + b + back {
        lemma_same_middle(front, a, b, back);
        the_day_stands_in_brackets(colors, facts, least, t);
        the_day_stands_in_brackets(colors, other, least, t);
        amounts_hold_no_dollar(facts.daily_total, 2);
        amounts_hold_no_dollar(other.daily_total, 2);
        lemma_same_amount(
            a,
            "(day: "@ + colors.cost_code(facts.daily_total),
            facts.daily_total.digits(2),
            "(day: "@ + colors.cost_code(other.daily_total),
            other.daily_total.digits(2),
            colors.reset_code(),
        );
    }
}

spec fn before_cost(colors: Colors, facts: LineFacts, extras: PayloadExtras, config: LineConfig) -> Seq<
    char,
> {
    match all_of(
        asked_first(colors, facts, extras, config) + asked_next(colors, facts, config),
        separator(colors),
    ) {
        Some(x) => x + separator(colors),
        None => Seq::empty(),
    }
}

spec fn after_cost(colors: Colors, facts: LineFacts, extras: PayloadExtras, config: LineConfig) -> Seq<
    char,
> {
    match all_of(asked_last(colors, facts, extras, config), separator(colors)) {
        Some(x) => separator(colors) + x,
        None => Seq::empty(),
    }
}

proof fn lemma_around_cost(
    colors: Colors,
    facts: LineFacts,
    extras: PayloadExtras,
    config: LineConfig,
    cost: Seq<char>,
)
    requires
        asked_cost(colors, facts, config) == Some(cost),
    ensures
        line_text(colors, facts, extras, config) == before_cost(colors, facts, extras, config)
            + cost + after_cost(colors, facts, extras, config),
{
    let sep = separator(colors);
    let a = asked_first(colors, facts, extras, config) + asked_next(colors, facts, config);
    let c = asked_last(colors, facts, extras, config);
    let one = seq![asked_cost(colors, facts, config)];
    parts_stand_in_their_order(colors, facts, extras, config);
    lemma_all_of(a + one, c, sep);
    lemma_all_of(a, one, sep);
    reveal_with_fuel(all_of, 2);
    assert(one.drop_last() =~= Seq::empty());
    assert(all_of(one, sep) == Some(cost));
    match (all_of(a, sep), all_of(c, sep)) {
        (Some(x), Some(y)) => {
            assert(x + sep + cost + sep + y =~= (x + sep) + cost + (sep + y));
        },
        (Some(x), None) => {
            assert(x + sep + cost =~= (x + sep) + cost + Seq::empty());
        },
        (None, Some(y)) => {
            assert(cost + sep + y =~= Seq::empty() + cost + (sep + y));
        },
        (None, None) => {
            assert(cost =~= Seq::empty() + cost + Seq::empty());
        },
    }
}

proof fn lemma_same_middle(front: Seq<char>, a: Seq<char>, b: Seq<char>, back: Seq<char>)
    requires
        front + a + back == front + b + back,
    ensures
        a == b,
{
    assert((front + a + back).len() == front.len() + a.len() + back.len());
    assert((front + b + back).len() == front.len() + b.len() + back.len());
    assert(a.len() == b.len());
    assert(a =~= (front + a + back).subrange(front.len() as int, front.len() as int + a.len()));
    assert(b =~= (front + b + back).subrange(front.len() as int, front.len() as int + b.len()));
}

proof fn lemma_same_amount(
    piece: Seq<char>,
    s: Seq<char>,
    x: Seq<char>,
    r: Seq<char>,
    y: Seq<char>,
    reset: Seq<char>,
)
    requires
        ends_in(piece, s + "$"@ + x + ")"@ + reset),
        ends_in(piece, r + "$"@ + y + ")"@ + reset),
        is_free_of(x, '$'),
        is_free_of(y, '$'),
    ensures
        x == y,
{
    reveal_strlit("$");
    reveal_strlit(")");
    let one = s + "$"@ + x + ")"@ + reset;
    let two = r + "$"@ + y + ")"@ + reset;
    let f = piece.take(piece.len() - one.len());
    let g = piece.take(piece.len() - two.len());
    assert(piece =~= f + one);
    assert(piece =~= g + two);
    let end = piece.len() - reset.len() - 1;
    assert((f + one).take(end) =~= (f + s) + seq!['$'] + x);
    assert((g + two).take(end) =~= (g + r) + seq!['$'] + y);
    lemma_last_mark(f + s, x, g + r, y, '$');
}

/// The state of the working copy shows without the spaces before it, and not at all where
/// there is nothing to say of it.
pub proof fn working_copies_show_what_there_is(g: &GitFacts)
    ensures
        g.info@.len() == 0 ==> git_piece(Some(g)) is None,
        g.info@.len() > 0 && g.info@[0] != ' ' && !crate::text::is_space(g.info@[0])
            ==> git_piece(Some(g)) == Some(g.info@),
        git_piece(None) is None,
{
}

} // verus!
