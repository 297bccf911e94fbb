//! The variables of the line, for a template to name.

use crate::config::{LayoutConfig, LineConfig};
use crate::display::attribution::{agents_variables, prompt_cache_variables};
use crate::display::colors::Colors;
use crate::display::context::{bar_cells, format_raw_bar};
use crate::display::enrichment::{
    add_enrichment, api_variables, enrichment_keeps_to_its_own, is_api_name, Enrichment,
};
use crate::display::line::{
    burn_rate, context_to_show, counts_fit, lasted, session_burn_rate, session_lasted,
    shown_context, GitFacts, LineFacts, PayloadExtras, TranscriptContext,
};
use crate::display::pieces::{
    duration_digits, format_duration, format_window, format_window_countdown, window_countdown,
    window_piece, RateLimitWindow, RateLimits,
};
use crate::layout::cost::{cost_figures, cost_value};
use crate::layout::format::painted;
use crate::layout::rates::metrics_variables;
use crate::layout::render::agree_on;
use crate::layout::session::{limit_variables, session_variables};
use crate::layout::variables::{
    chosen_color, context_variables, cut_front, directory_value, git_variables, lines_value,
    model_value, set_opt, set_painted, texts, VariableBuilder,
};
use crate::text::{
    concat2, dec, join_opt, joined_opt, opt_str, opt_view, trim_start, trimmed_start, u64_text,
};
use crate::text_map::TextMap;
use crate::utils::{cleaned, sanitize_for_terminal};
use vstd::prelude::*;

verus! {

/// A count after its mark, unless it is zero.
pub open spec fn marked(mark: Seq<char>, n: nat) -> Option<Seq<char>> {
    if n > 0 {
        Some(mark + dec(n))
    } else {
        None
    }
}

fn mark_count(mark: &str, n: u64) -> (r: Option<String>)
    ensures
        opt_view(r) == marked(mark@, n as nat),
{
    if n > 0 {
        Some(concat2(mark, u64_text(n).as_str()))
    } else {
        None
    }
}

/// The changes of a working copy, without its branch.
pub open spec fn status_words(g: GitFacts) -> Option<Seq<char>> {
    joined_opt(
        joined_opt(
            joined_opt(marked("+"@, g.added as nat), " "@, marked("~"@, g.modified as nat)),
            " "@,
            marked("-"@, g.deleted as nat),
        ),
        " "@,
        marked("?"@, g.untracked as nat),
    )
}

/// Whether a working copy has changes.
pub open spec fn is_dirty(g: GitFacts) -> bool {
    g.added > 0 || g.modified > 0 || g.deleted > 0 || g.untracked > 0
}

/// The changes of a working copy, without its branch: `+1 ~2 -3 ?4`.
pub fn git_status_words(g: &GitFacts) -> (r: Option<String>)
    ensures
        opt_view(r) == status_words(*g),
        r is Some <==> is_dirty(*g),
{
    let a = join_opt(mark_count("+", g.added), " ", mark_count("~", g.modified));
    let b = join_opt(a, " ", mark_count("-", g.deleted));
    join_opt(b, " ", mark_count("?", g.untracked))
}

pub open spec fn token_counts(c: TranscriptContext) -> Option<(u64, u64)> {
    match (c.tokens, c.window) {
        (Some(t), Some(w)) => Some((t as u64, w)),
        _ => None,
    }
}

/// The directory's and the working copy's variables.
pub open spec fn place_variables(
    m: Map<Seq<char>, Seq<char>>,
    colors: Colors,
    facts: LineFacts,
    layout: LayoutConfig,
) -> Map<Seq<char>, Seq<char>> {
    let reset = colors.reset_code();
    let dir = layout.components.directory;
    let color = chosen_color(colors, dir.color@, colors.code(colors.theme.directory@));
    let a = set_painted(
        m,
        "directory"@,
        color,
        directory_value(facts.current_dir@, facts.short_dir@, facts.basename@, dir),
        reset,
    );
    let b = if facts.basename@.len() > 0 {
        a.insert(
            "dir_short"@,
            painted(color, cut_front(facts.basename@, dir.max_length as nat), reset),
        )
    } else {
        a
    };
    match facts.git {
        Some(g) => git_variables(
            b,
            trimmed_start(g.info@),
            Some(cleaned(g.branch@)),
            status_words(*g),
            is_dirty(*g),
            colors.code(colors.theme.green@),
            reset,
            layout.components.git,
            colors,
        ),
        None => b,
    }
}

fn add_place(builder: VariableBuilder, colors: &Colors, facts: &LineFacts, layout: &LayoutConfig) -> (r:
    VariableBuilder)
    ensures
        r@ == place_variables(builder@, *colors, *facts, *layout),
{
    let reset = colors.reset();
    let b = builder.directory_with_config(
        facts.current_dir,
        facts.short_dir,
        facts.basename,
        colors.directory().as_str(),
        reset.as_str(),
        &layout.components.directory,
        colors,
    );
    match facts.git {
        Some(g) => {
            let info = trim_start(g.info.as_str());
            let branch = sanitize_for_terminal(g.branch.as_str());
            let words = git_status_words(g);
            let dirty = words.is_some();
            let status = match &words {
                Some(w) => Some(w.as_str()),
                None => None,
            };
            b.git_with_config(
                info.as_str(),
                Some(branch.as_str()),
                status,
                dirty,
                colors.green().as_str(),
                reset.as_str(),
                &layout.components.git,
                colors,
            )
        },
        None => b,
    }
}

/// The conversation's variables: context, model, duration, lines.
pub open spec fn talk_variables(
    m: Map<Seq<char>, Seq<char>>,
    colors: Colors,
    facts: LineFacts,
    extras: PayloadExtras,
    config: LineConfig,
) -> Map<Seq<char>, Seq<char>> {
    let reset = colors.reset_code();
    let parts = config.layout.components;
    let a = match shown_context(facts, extras, config.context_threshold) {
        Some(c) => context_variables(
            m,
            "["@ + bar_cells(c.usage.percentage, config.display.progress_bar_width as nat) + "]"@,
            Some(c.usage.percentage.whole_part(u32::MAX as nat) as u32),
            token_counts(c),
            parts.context,
        ),
        None => m,
    };
    let b = match facts.model {
        Some(x) => {
            let color = chosen_color(colors, parts.model.color@, colors.code(colors.theme.model@));
            let name = cleaned(x.name@);
            set_painted(
                set_painted(
                    set_painted(
                        a,
                        "model"@,
                        color,
                        model_value(
                            x.abbreviation@,
                            name,
                            x.family@,
                            x.version@,
                            parts.model,
                        ),
                        reset,
                    ),
                    "model_full"@,
                    color,
                    name,
                    reset,
                ),
                "model_name"@,
                color,
                x.family@,
                reset,
            )
        },
        None => a,
    };
    let c = match facts.transcript_duration {
        Some(s) => set_painted(
            b,
            "duration"@,
            colors.code(colors.theme.duration@),
            duration_digits(s as nat),
            reset,
        ),
        None => b,
    };
    match facts.cost {
        Some(x) => match (x.total_lines_added, x.total_lines_removed) {
            (Some(added), Some(removed)) => set_opt(
                c,
                "lines"@,
                lines_value(
                    added as nat,
                    removed as nat,
                    colors.code(colors.theme.lines_added@),
                    colors.code(colors.theme.lines_removed@),
                    reset,
                ),
            ),
            _ => c,
        },
        None => c,
    }
}

fn add_talk(
    builder: VariableBuilder,
    colors: &Colors,
    facts: &LineFacts,
    extras: &PayloadExtras,
    config: &LineConfig,
) -> (r: VariableBuilder)
    ensures
        r@ == talk_variables(builder@, *colors, *facts, *extras, *config),
{
    let reset = colors.reset();
    let parts = &config.layout.components;
    let mut b = builder;
    match context_to_show(facts, extras, config.context_threshold) {
        Some(c) => {
            let bar = format_raw_bar(c.usage.percentage, config.display.progress_bar_width);
            let tokens: Option<(u64, u64)> = match (c.tokens, c.window) {
                (Some(t), Some(w)) => Some((t as u64, w)),
                _ => None,
            };
            b = b.context_with_config(
                bar.as_str(),
                Some(c.usage.percentage.truncate(u32::MAX)),
                tokens,
                &parts.context,
            );
        },
        None => {},
    }
    match facts.model {
        Some(x) => {
            let name = sanitize_for_terminal(x.name.as_str());
            b = b.model_with_config(
                x.abbreviation.as_str(),
                name.as_str(),
                x.family.as_str(),
                x.version.as_str(),
                colors.model().as_str(),
                reset.as_str(),
                &parts.model,
                colors,
            );
        },
        None => {},
    }
    match facts.transcript_duration {
        Some(s) => {
            b = b.duration(
                format_duration(s).as_str(),
                colors.duration().as_str(),
                reset.as_str(),
            );
        },
        None => {},
    }
    match facts.cost {
        Some(x) => match (x.total_lines_added, x.total_lines_removed) {
            (Some(added), Some(removed)) => {
                b = b.lines_changed(
                    added,
                    removed,
                    colors.lines_added().as_str(),
                    colors.lines_removed().as_str(),
                    reset.as_str(),
                );
            },
            _ => {},
        },
        None => {},
    }
    b
}

/// The cost's variables.
pub open spec fn spend_variables(
    m: Map<Seq<char>, Seq<char>>,
    colors: Colors,
    facts: LineFacts,
    config: LineConfig,
) -> Map<Seq<char>, Seq<char>> {
    match facts.cost {
        Some(x) => match x.total_cost_usd {
            Some(t) => {
                let settings = config.layout.components.cost;
                let color = chosen_color(colors, settings.color@, colors.cost_code(t));
                let burn = burn_rate(
                    t,
                    lasted(
                        facts.session_duration,
                        facts.transcript_duration,
                        x.total_duration_ms,
                    ),
                    config.burn_rate.min_duration_seconds,
                );
                let daily = if t.below(facts.daily_total) {
                    Some(facts.daily_total)
                } else {
                    None
                };
                let gray = colors.code(colors.theme.light_gray@);
                let reset = colors.reset_code();
                set_opt(
                    cost_figures(m, Some(t), burn, daily, color, gray, reset),
                    "cost"@,
                    cost_value(Some(t), burn, daily, color, gray, reset, settings.format@),
                )
            },
            None => m,
        },
        None => m,
    }
}

fn add_spend(builder: VariableBuilder, colors: &Colors, facts: &LineFacts, config: &LineConfig) -> (r:
    VariableBuilder)
    ensures
        r@ == spend_variables(builder@, *colors, *facts, *config),
{
    match facts.cost {
        Some(x) => match x.total_cost_usd {
            Some(t) => {
                let burn = session_burn_rate(
                    t,
                    session_lasted(facts, x),
                    config.burn_rate.min_duration_seconds,
                );
                let daily = if t.less_than(&facts.daily_total) {
                    Some(facts.daily_total)
                } else {
                    None
                };
                builder.cost_with_config(
                    Some(t),
                    burn,
                    daily,
                    colors.cost_color(t).as_str(),
                    colors.light_gray().as_str(),
                    colors.reset().as_str(),
                    &config.layout.components.cost,
                    colors,
                )
            },
            None => builder,
        },
        None => builder,
    }
}

/// The time left of a window of which the percentage is known.
pub open spec fn known_countdown(w: Option<RateLimitWindow>, now: int) -> Option<Seq<char>> {
    match w {
        Some(x) => if x.used_percentage is Some {
            window_countdown(x, now)
        } else {
            None
        },
        None => None,
    }
}

fn known_countdown_text(w: &Option<RateLimitWindow>, now: i64) -> (r: Option<String>)
    ensures
        opt_view(r) == known_countdown(*w, now as int),
{
    match w {
        Some(x) => {
            if x.used_percentage.is_some() {
                format_window_countdown(x, now)
            } else {
                None
            }
        },
        None => None,
    }
}

/// The variables of the limits. The countdowns by themselves are there whether or not
/// they stand beside the percentages too.
pub open spec fn allowance_variables(
    m: Map<Seq<char>, Seq<char>>,
    colors: Colors,
    limits: RateLimits,
    now: int,
    show_countdown: bool,
) -> Map<Seq<char>, Seq<char>> {
    limit_variables(
        m,
        window_piece("5h"@, limits.five_hour, now, show_countdown),
        known_countdown(limits.five_hour, now),
        window_piece("7d"@, limits.seven_day, now, show_countdown),
        known_countdown(limits.seven_day, now),
        colors.code(colors.theme.light_gray@),
        colors.reset_code(),
    )
}

fn opt_ref(s: &Option<String>) -> (r: Option<&str>)
    ensures
        opt_str(r) == opt_view(*s),
{
    match s {
        Some(t) => Some(t.as_str()),
        None => None,
    }
}

fn add_allowance(
    builder: VariableBuilder,
    colors: &Colors,
    limits: &RateLimits,
    now: i64,
    show_countdown: bool,
) -> (r: VariableBuilder)
    ensures
        r@ == allowance_variables(builder@, *colors, *limits, now as int, show_countdown),
{
    let five = format_window("5h", &limits.five_hour, now, show_countdown);
    let five_reset = known_countdown_text(&limits.five_hour, now);
    let seven = format_window("7d", &limits.seven_day, now, show_countdown);
    let seven_reset = known_countdown_text(&limits.seven_day, now);
    builder.rate_limits(
        opt_ref(&five),
        opt_ref(&five_reset),
        opt_ref(&seven),
        opt_ref(&seven_reset),
        colors.light_gray().as_str(),
        colors.reset().as_str(),
    )
}

/// The variables of what the payload says besides: limits, agents, cache, session.
pub open spec fn payload_variables(
    m: Map<Seq<char>, Seq<char>>,
    colors: Colors,
    extras: PayloadExtras,
    now: int,
    show_countdown: bool,
) -> Map<Seq<char>, Seq<char>> {
    let gray = colors.code(colors.theme.light_gray@);
    let a = match extras.rate_limits {
        Some(rl) => allowance_variables(m, colors, *rl, now, show_countdown),
        None => m,
    };
    let b = match extras.agents {
        Some(s) => agents_variables(a, *s, gray, colors.reset_code()),
        None => a,
    };
    let c = match extras.prompt_cache {
        Some(p) => prompt_cache_variables(b, *p, gray, colors.reset_code()),
        None => b,
    };
    let owner = match extras.repo {
        Some(r) => opt_view(r.owner),
        None => None,
    };
    let name = match extras.repo {
        Some(r) => opt_view(r.name),
        None => None,
    };
    session_variables(
        c,
        opt_str(extras.effort),
        opt_str(extras.version),
        extras.exceeds_200k == Some(true),
        owner,
        name,
        colors.code(colors.theme.gray@),
        colors.reset_code(),
    )
}

fn add_payload(
    builder: VariableBuilder,
    colors: &Colors,
    extras: &PayloadExtras,
    now: i64,
    show_countdown: bool,
) -> (r: VariableBuilder)
    requires
        extras.agents matches Some(s) ==> s.main.traffic() + s.agents.traffic() <= u64::MAX,
    ensures
        r@ == payload_variables(builder@, *colors, *extras, now as int, show_countdown),
{
    let gray = colors.light_gray();
    let reset = colors.reset();
    let mut b = builder;
    match extras.rate_limits {
        Some(rl) => {
            b = add_allowance(b, colors, rl, now, show_countdown);
        },
        None => {},
    }
    match extras.agents {
        Some(s) => {
            b = b.agents(s, gray.as_str(), reset.as_str());
        },
        None => {},
    }
    match extras.prompt_cache {
        Some(p) => {
            b = b.prompt_cache(p, gray.as_str(), reset.as_str());
        },
        None => {},
    }
    let owner = match extras.repo {
        Some(r) => opt_ref(&r.owner),
        None => None,
    };
    let name = match extras.repo {
        Some(r) => opt_ref(&r.name),
        None => None,
    };
    let over = match extras.exceeds_200k {
        Some(x) => x,
        None => false,
    };
    b.session_meta(
        extras.effort,
        extras.version,
        over,
        owner,
        name,
        colors.gray().as_str(),
        reset.as_str(),
    )
}

/// All variables of the line.
pub open spec fn line_variables(
    colors: Colors,
    facts: LineFacts,
    extras: PayloadExtras,
    api: Enrichment,
    config: LineConfig,
) -> Map<Seq<char>, Seq<char>> {
    let a = place_variables(Map::empty(), colors, facts, config.layout);
    let b = talk_variables(a, colors, facts, extras, config);
    let c = spend_variables(b, colors, facts, config);
    let d = payload_variables(
        c,
        colors,
        extras,
        facts.now as int,
        config.display.rate_limit_reset_countdown,
    );
    let e = api_variables(d, api, colors.code(colors.theme.light_gray@), colors.reset_code());
    match facts.token_rates {
        Some(x) => metrics_variables(
            e,
            *x,
            colors.code(colors.theme.light_gray@),
            colors.reset_code(),
            config.layout.components.token_rate,
            config.token_rate,
            colors,
        ),
        None => e,
    }
}

pub(crate) proof fn lemma_same_variables(
    one: Enrichment,
    other: Enrichment,
    colors: Colors,
    facts: LineFacts,
    extras: PayloadExtras,
    config: LineConfig,
    name: Seq<char>,
)
    requires
        !is_api_name(name),
    ensures
        agree_on(
            line_variables(colors, facts, extras, one, config),
            line_variables(colors, facts, extras, other, config),
            name,
        ),
{
    let a = place_variables(Map::empty(), colors, facts, config.layout);
    let b = talk_variables(a, colors, facts, extras, config);
    let c = spend_variables(b, colors, facts, config);
    let d = payload_variables(
        c,
        colors,
        extras,
        facts.now as int,
        config.display.rate_limit_reset_countdown,
    );
    let gray = colors.code(colors.theme.light_gray@);
    enrichment_keeps_to_its_own(d, one, gray, colors.reset_code(), name);
    enrichment_keeps_to_its_own(d, other, gray, colors.reset_code(), name);
}

/// Collect the variables of the line, for the layout's template. What is not known has no
/// variable.
pub fn layout_variables(
    colors: &Colors,
    facts: &LineFacts,
    extras: &PayloadExtras,
    api: &Enrichment,
    config: &LineConfig,
) -> (r: TextMap<String>)
    requires
        counts_fit(*extras),
    ensures
        texts(r@) == line_variables(*colors, *facts, *extras, *api, *config),
{
    let a = add_place(VariableBuilder::new(), colors, facts, &config.layout);
    let b = add_talk(a, colors, facts, extras, config);
    let c = add_spend(b, colors, facts, config);
    let d = add_payload(
        c,
        colors,
        extras,
        facts.now,
        config.display.rate_limit_reset_countdown,
    );
    let e = add_enrichment(d, api, colors.light_gray().as_str(), colors.reset().as_str());
    let f = match facts.token_rates {
        Some(x) => e.token_rate_with_metrics(
            x,
            colors.light_gray().as_str(),
            colors.reset().as_str(),
            &config.layout.components.token_rate,
            &config.token_rate,
            colors,
        ),
        None => e,
    };
    f.build()
}

} // verus!
