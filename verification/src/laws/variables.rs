//! What the variables of a template hold.

use crate::agents::{share_fraction, short_count, AgentsSummary};
use crate::ant::cache::{ModelsCache, TokenBreakdown, UsageCache};
use crate::ant::config::AntConfig;
use crate::ant::duration::{age_text, past_threshold};
use crate::clock::{seconds_between, Timestamp};
use crate::config::{LayoutConfig, LineConfig, TokenRateComponentConfig, TokenRateConfig};
use crate::display::attribution::{agents_variables, counted, prompt_cache_variables};
use crate::display::colors::Colors;
use crate::display::context::bar_cells;
use crate::display::enrichment::{
    api_variables, enrichment, enrichment_keeps_to_its_own, is_api_name, spent, CacheAge,
    Enrichment,
};
use crate::display::line::{
    burn_rate, lasted, shown_context, Cost, GitFacts, LineFacts, ModelFacts, PayloadExtras, Repo,
    TranscriptContext,
};
use crate::display::pieces::{
    agents_piece, countdown, duration_digits, prompt_cache_piece, PromptCache, RateLimitWindow,
    RateLimits,
};
use crate::display::template::{
    line_variables, payload_variables, place_variables, spend_variables, talk_variables,
};
use crate::double::Double;
use crate::laws::words::{begins_with, ends_in};
use crate::layout::format::{rate_in_unit, rate_with_unit, token_count};
use crate::layout::rates::{metrics_variables, TokenRateMetrics};
use crate::layout::variables::VariableBuilder;
use crate::ratio::fraction_digits;
use crate::text::{dec, dec_int, in_order, joined, opt_str, opt_view, trimmed_start};
use crate::utils::cleaned;
use vstd::prelude::*;

verus! {

/// What tells the names of variables apart: their lengths, and characters of those that are
/// equally long.
proof fn lemma_names()
    ensures
        "directory"@.len() == 9 && "directory"@[3] == 'e',
        "dir_short"@.len() == 9 && "dir_short"@[3] == '_',
        "git"@.len() == 3,
        "git_branch"@.len() == 10 && "git_branch"@[6] == 'a',
        "context_pct"@.len() == 11 && "context_pct"@[0] == 'c',
        "context_tokens"@.len() == 14 && "context_tokens"@[4] == 'e',
        "context"@.len() == 7,
        "model"@.len() == 5 && "model"@[0] == 'm',
        "model_full"@.len() == 10 && "model_full"@[6] == 'f',
        "model_name"@.len() == 10 && "model_name"@[6] == 'n',
        "duration"@.len() == 8,
        "lines"@.len() == 5 && "lines"@[0] == 'l',
        "cost_short"@.len() == 10 && "cost_short"@[6] == 'h',
        "burn_rate"@.len() == 9 && "burn_rate"@[3] == 'n',
        "daily_total"@.len() == 11 && "daily_total"@[0] == 'd',
        "cost"@.len() == 4 && "cost"@[0] == 'c',
        "rate_limit_5h"@.len() == 13 && "rate_limit_5h"@[11] == '5',
        "rate_limit_5h_reset"@.len() == 19 && "rate_limit_5h_reset"@[11] == '5',
        "rate_limit_7d"@.len() == 13 && "rate_limit_7d"@[11] == '7',
        "rate_limit_7d_reset"@.len() == 19 && "rate_limit_7d_reset"@[11] == '7',
        "rate_limits"@.len() == 11 && "rate_limits"@[0] == 'r',
        "agents"@.len() == 6 && "agents"@[1] == 'g',
        "agents_count"@.len() == 12 && "agents_count"@[8] == 'o',
        "agents_pct"@.len() == 10 && "agents_pct"@[6] == '_',
        "agents_tokens"@.len() == 13 && "agents_tokens"@[11] == 'n',
        "agents_types"@.len() == 12 && "agents_types"@[8] == 'y',
        "prompt_cache"@.len() == 12 && "prompt_cache"@[8] == 'a',
        "cache_hit"@.len() == 9 && "cache_hit"@[3] == 'h',
        "cache_misses"@.len() == 12 && "cache_misses"@[8] == 's',
        "cache_miss_cause"@.len() == 16 && "cache_miss_cause"@[6] == 'm',
        "effort"@.len() == 6 && "effort"@[1] == 'f',
        "cc_version"@.len() == 10 && "cc_version"@[6] == 's',
        "over_200k"@.len() == 9 && "over_200k"@[3] == 'r',
        "repo"@.len() == 4 && "repo"@[0] == 'r',
        "api_cost_today"@.len() == 14 && "api_cost_today"@[4] == 'c',
        "api_cost_mtd"@.len() == 12 && "api_cost_mtd"@[8] == '_',
        "api_tokens_by_model"@.len() == 19 && "api_tokens_by_model"@[11] == 'b',
        "api_account"@.len() == 11 && "api_account"@[0] == 'a',
        "api_tz"@.len() == 6 && "api_tz"@[1] == 'p',
        "api_usage_age"@.len() == 13 && "api_usage_age"@[11] == 'g',
        "api_models_age"@.len() == 14 && "api_models_age"@[4] == 'm',
        "token_input_rate"@.len() == 16 && "token_input_rate"@[6] == 'i',
        "token_output_rate"@.len() == 17 && "token_output_rate"@[6] == 'o',
        "token_rate_only"@.len() == 15 && "token_rate_only"@[12] == 'n',
        "token_cache_rate"@.len() == 16 && "token_cache_rate"@[6] == 'c',
        "token_cache_hit"@.len() == 15 && "token_cache_hit"@[12] == 'h',
        "token_cache_roi"@.len() == 15 && "token_cache_roi"@[12] == 'r',
        "token_session_total"@.len() == 19 && "token_session_total"@[11] == 'o',
        "token_daily_total"@.len() == 17 && "token_daily_total"@[6] == 'd',
        "token_rate"@.len() == 10 && "token_rate"@[6] == 'r',
{
    reveal_strlit("directory");
    reveal_strlit("dir_short");
    reveal_strlit("git");
    reveal_strlit("git_branch");
    reveal_strlit("context_pct");
    reveal_strlit("context_tokens");
    reveal_strlit("context");
    reveal_strlit("model");
    reveal_strlit("model_full");
    reveal_strlit("model_name");
    reveal_strlit("duration");
    reveal_strlit("lines");
    reveal_strlit("cost_short");
    reveal_strlit("burn_rate");
    reveal_strlit("daily_total");
    reveal_strlit("cost");
    reveal_strlit("rate_limit_5h");
    reveal_strlit("rate_limit_5h_reset");
    reveal_strlit("rate_limit_7d");
    reveal_strlit("rate_limit_7d_reset");
    reveal_strlit("rate_limits");
    reveal_strlit("agents");
    reveal_strlit("agents_count");
    reveal_strlit("agents_pct");
    reveal_strlit("agents_tokens");
    reveal_strlit("agents_types");
    reveal_strlit("prompt_cache");
    reveal_strlit("cache_hit");
    reveal_strlit("cache_misses");
    reveal_strlit("cache_miss_cause");
    reveal_strlit("effort");
    reveal_strlit("cc_version");
    reveal_strlit("over_200k");
    reveal_strlit("repo");
    reveal_strlit("api_cost_today");
    reveal_strlit("api_cost_mtd");
    reveal_strlit("api_tokens_by_model");
    reveal_strlit("api_account");
    reveal_strlit("api_tz");
    reveal_strlit("api_usage_age");
    reveal_strlit("api_models_age");
    reveal_strlit("token_input_rate");
    reveal_strlit("token_output_rate");
    reveal_strlit("token_rate_only");
    reveal_strlit("token_cache_rate");
    reveal_strlit("token_cache_hit");
    reveal_strlit("token_cache_roi");
    reveal_strlit("token_session_total");
    reveal_strlit("token_daily_total");
    reveal_strlit("token_rate");
}

spec fn is_spend_name(k: Seq<char>) -> bool {
    ||| k == "cost_short"@
    ||| k == "burn_rate"@
    ||| k == "daily_total"@
    ||| k == "cost"@
}

spec fn is_limits_name(k: Seq<char>) -> bool {
    ||| k == "rate_limit_5h"@
    ||| k == "rate_limit_5h_reset"@
    ||| k == "rate_limit_7d"@
    ||| k == "rate_limit_7d_reset"@
    ||| k == "rate_limits"@
}

spec fn is_agents_name(k: Seq<char>) -> bool {
    ||| k == "agents"@
    ||| k == "agents_count"@
    ||| k == "agents_pct"@
    ||| k == "agents_tokens"@
    ||| k == "agents_types"@
}

spec fn is_cache_name(k: Seq<char>) -> bool {
    ||| k == "prompt_cache"@
    ||| k == "cache_hit"@
    ||| k == "cache_misses"@
    ||| k == "cache_miss_cause"@
}

spec fn is_session_name(k: Seq<char>) -> bool {
    ||| k == "effort"@
    ||| k == "cc_version"@
    ||| k == "over_200k"@
    ||| k == "repo"@
}

spec fn is_rates_name(k: Seq<char>) -> bool {
    ||| k == "token_input_rate"@
    ||| k == "token_output_rate"@
    ||| k == "token_rate_only"@
    ||| k == "token_cache_rate"@
    ||| k == "token_cache_hit"@
    ||| k == "token_cache_roi"@
    ||| k == "token_session_total"@
    ||| k == "token_daily_total"@
    ||| k == "token_rate"@
}

spec fn is_talk_name(k: Seq<char>) -> bool {
    ||| k == "context_pct"@
    ||| k == "context_tokens"@
    ||| k == "context"@
    ||| k == "model"@
    ||| k == "model_full"@
    ||| k == "model_name"@
    ||| k == "duration"@
    ||| k == "lines"@
}

// ---------------------------------------------------------------------------
// No group touches another's variables
// ---------------------------------------------------------------------------

spec fn is_payload_name(k: Seq<char>) -> bool {
    is_limits_name(k) || is_agents_name(k) || is_cache_name(k) || is_session_name(k)
}

spec fn same_at(a: Map<Seq<char>, Seq<char>>, b: Map<Seq<char>, Seq<char>>, k: Seq<char>) -> bool {
    a.dom().contains(k) == b.dom().contains(k) && a[k] == b[k]
}

proof fn lemma_rates_keep(
    m: Map<Seq<char>, Seq<char>>,
    x: TokenRateMetrics,
    default_color: Seq<char>,
    reset: Seq<char>,
    component: TokenRateComponentConfig,
    config: TokenRateConfig,
    colors: Colors,
    k: Seq<char>,
)
    requires
        !is_rates_name(k),
    ensures
        same_at(metrics_variables(m, x, default_color, reset, component, config, colors), m, k),
{
}

proof fn lemma_limits_keep(
    m: Map<Seq<char>, Seq<char>>,
    colors: Colors,
    rl: RateLimits,
    now: int,
    show: bool,
    k: Seq<char>,
)
    requires
        !is_limits_name(k),
    ensures
        same_at(crate::display::template::allowance_variables(m, colors, rl, now, show), m, k),
{
}

proof fn lemma_agents_keep(
    m: Map<Seq<char>, Seq<char>>,
    s: AgentsSummary,
    color: Seq<char>,
    reset: Seq<char>,
    k: Seq<char>,
)
    requires
        !is_agents_name(k),
    ensures
        same_at(agents_variables(m, s, color, reset), m, k),
{
}

proof fn lemma_cache_keep(
    m: Map<Seq<char>, Seq<char>>,
    p: PromptCache,
    color: Seq<char>,
    reset: Seq<char>,
    k: Seq<char>,
)
    requires
        !is_cache_name(k),
    ensures
        same_at(prompt_cache_variables(m, p, color, reset), m, k),
{
}

proof fn lemma_session_keep(
    m: Map<Seq<char>, Seq<char>>,
    effort: Option<Seq<char>>,
    version: Option<Seq<char>>,
    over: bool,
    owner: Option<Seq<char>>,
    name: Option<Seq<char>>,
    color: Seq<char>,
    reset: Seq<char>,
    k: Seq<char>,
)
    requires
        !is_session_name(k),
    ensures
        same_at(
            crate::layout::session::session_variables(
                m,
                effort,
                version,
                over,
                owner,
                name,
                color,
                reset,
            ),
            m,
            k,
        ),
{
}

proof fn lemma_spend_keep(
    m: Map<Seq<char>, Seq<char>>,
    colors: Colors,
    facts: LineFacts,
    config: LineConfig,
    k: Seq<char>,
)
    requires
        !is_spend_name(k),
    ensures
        same_at(spend_variables(m, colors, facts, config), m, k),
{
}

proof fn lemma_talk_keep(
    m: Map<Seq<char>, Seq<char>>,
    colors: Colors,
    facts: LineFacts,
    extras: PayloadExtras,
    config: LineConfig,
    k: Seq<char>,
)
    requires
        !is_talk_name(k),
    ensures
        same_at(talk_variables(m, colors, facts, extras, config), m, k),
{
}

proof fn lemma_payload_keep(
    m: Map<Seq<char>, Seq<char>>,
    colors: Colors,
    extras: PayloadExtras,
    now: int,
    show: bool,
    k: Seq<char>,
)
    requires
        !is_payload_name(k),
    ensures
        same_at(payload_variables(m, colors, extras, now, show), m, k),
{
    let gray = colors.code(colors.theme.light_gray@);
    let reset = colors.reset_code();
    let a = match extras.rate_limits {
        Some(rl) => crate::display::template::allowance_variables(m, colors, *rl, now, show),
        None => m,
    };
    match extras.rate_limits {
        Some(rl) => lemma_limits_keep(m, colors, *rl, now, show, k),
        None => {},
    }
    let b = match extras.agents {
        Some(s) => agents_variables(a, *s, gray, reset),
        None => a,
    };
    match extras.agents {
        Some(s) => lemma_agents_keep(a, *s, gray, reset, k),
        None => {},
    }
    let c = match extras.prompt_cache {
        Some(p) => prompt_cache_variables(b, *p, gray, reset),
        None => b,
    };
    match extras.prompt_cache {
        Some(p) => lemma_cache_keep(b, *p, gray, reset, k),
        None => {},
    }
    let owner = match extras.repo {
        Some(r) => opt_view(r.owner),
        None => None,
    };
    let name = match extras.repo {
        Some(r) => opt_view(r.name),
        None => None,
    };
    lemma_session_keep(
        c,
        opt_str(extras.effort),
        opt_str(extras.version),
        extras.exceeds_200k == Some(true),
        owner,
        name,
        colors.code(colors.theme.gray@),
        reset,
        k,
    );
}

spec fn placed(colors: Colors, facts: LineFacts, config: LineConfig) -> Map<Seq<char>, Seq<char>> {
    place_variables(Map::empty(), colors, facts, config.layout)
}

spec fn talked(colors: Colors, facts: LineFacts, extras: PayloadExtras, config: LineConfig) -> Map<
    Seq<char>,
    Seq<char>,
> {
    talk_variables(placed(colors, facts, config), colors, facts, extras, config)
}

spec fn spent_on(colors: Colors, facts: LineFacts, extras: PayloadExtras, config: LineConfig) -> Map<
    Seq<char>,
    Seq<char>,
> {
    spend_variables(talked(colors, facts, extras, config), colors, facts, config)
}

spec fn told(colors: Colors, facts: LineFacts, extras: PayloadExtras, config: LineConfig) -> Map<
    Seq<char>,
    Seq<char>,
> {
    payload_variables(
        spent_on(colors, facts, extras, config),
        colors,
        extras,
        facts.now as int,
        config.display.rate_limit_reset_countdown,
    )
}

spec fn enriched(
    colors: Colors,
    facts: LineFacts,
    extras: PayloadExtras,
    api: Enrichment,
    config: LineConfig,
) -> Map<Seq<char>, Seq<char>> {
    api_variables(
        told(colors, facts, extras, config),
        api,
        colors.code(colors.theme.light_gray@),
        colors.reset_code(),
    )
}

proof fn lemma_after_api(
    colors: Colors,
    facts: LineFacts,
    extras: PayloadExtras,
    api: Enrichment,
    config: LineConfig,
    k: Seq<char>,
)
    requires
        !is_rates_name(k),
    ensures
        same_at(
            line_variables(colors, facts, extras, api, config),
            enriched(colors, facts, extras, api, config),
            k,
        ),
{
    match facts.token_rates {
        Some(x) => lemma_rates_keep(
            enriched(colors, facts, extras, api, config),
            *x,
            colors.code(colors.theme.light_gray@),
            colors.reset_code(),
            config.layout.components.token_rate,
            config.token_rate,
            colors,
            k,
        ),
        None => {},
    }
}

proof fn lemma_after_payload(
    colors: Colors,
    facts: LineFacts,
    extras: PayloadExtras,
    api: Enrichment,
    config: LineConfig,
    k: Seq<char>,
)
    requires
        !is_rates_name(k),
        !is_api_name(k),
    ensures
        line_variables(colors, facts, extras, api, config).dom().contains(k) == told(
            colors,
            facts,
            extras,
            config,
        ).dom().contains(k),
        told(colors, facts, extras, config).dom().contains(k) ==> line_variables(
            colors,
            facts,
            extras,
            api,
            config,
        )[k] == told(colors, facts, extras, config)[k],
{
    lemma_after_api(colors, facts, extras, api, config, k);
    enrichment_keeps_to_its_own(
        told(colors, facts, extras, config),
        api,
        colors.code(colors.theme.light_gray@),
        colors.reset_code(),
        k,
    );
}

proof fn lemma_after_spend(
    colors: Colors,
    facts: LineFacts,
    extras: PayloadExtras,
    api: Enrichment,
    config: LineConfig,
    k: Seq<char>,
)
    requires
        !is_rates_name(k),
        !is_api_name(k),
        !is_payload_name(k),
    ensures
        ({
            let all = line_variables(colors, facts, extras, api, config);
            let then = spent_on(colors, facts, extras, config);
            &&& all.dom().contains(k) == then.dom().contains(k)
            &&& then.dom().contains(k) ==> all[k] == then[k]
        }),
{
    lemma_after_payload(colors, facts, extras, api, config, k);
    lemma_payload_keep(
        spent_on(colors, facts, extras, config),
        colors,
        extras,
        facts.now as int,
        config.display.rate_limit_reset_countdown,
        k,
    );
}

proof fn lemma_after_talk(
    colors: Colors,
    facts: LineFacts,
    extras: PayloadExtras,
    api: Enrichment,
    config: LineConfig,
    k: Seq<char>,
)
    requires
        !is_rates_name(k),
        !is_api_name(k),
        !is_payload_name(k),
        !is_spend_name(k),
    ensures
        ({
            let all = line_variables(colors, facts, extras, api, config);
            let then = talked(colors, facts, extras, config);
            &&& all.dom().contains(k) == then.dom().contains(k)
            &&& then.dom().contains(k) ==> all[k] == then[k]
        }),
{
    lemma_after_spend(colors, facts, extras, api, config, k);
    lemma_spend_keep(talked(colors, facts, extras, config), colors, facts, config, k);
}

proof fn lemma_after_place(
    colors: Colors,
    facts: LineFacts,
    extras: PayloadExtras,
    api: Enrichment,
    config: LineConfig,
    k: Seq<char>,
)
    requires
        !is_rates_name(k),
        !is_api_name(k),
        !is_payload_name(k),
        !is_spend_name(k),
        !is_talk_name(k),
    ensures
        ({
            let all = line_variables(colors, facts, extras, api, config);
            let then = placed(colors, facts, config);
            &&& all.dom().contains(k) == then.dom().contains(k)
            &&& then.dom().contains(k) ==> all[k] == then[k]
        }),
{
    lemma_after_talk(colors, facts, extras, api, config, k);
    lemma_talk_keep(placed(colors, facts, config), colors, facts, extras, config, k);
}

// ---------------------------------------------------------------------------
// Place
// ---------------------------------------------------------------------------

/// The colour that is configured, or else another.
pub open spec fn own_color(colors: Colors, configured: Seq<char>, other: Seq<char>) -> Seq<char> {
    if configured.len() > 0 {
        colors.override_code(configured)
    } else {
        other
    }
}

/// Whether a variable holds a text in a colour.
pub open spec fn holds(
    vars: Map<Seq<char>, Seq<char>>,
    name: Seq<char>,
    color: Seq<char>,
    text: Seq<char>,
    reset: Seq<char>,
) -> bool {
    vars.dom().contains(name) && vars[name] == color + text + reset
}

/// The directory is shown in full, by its last part, or in its short form, as configured,
/// in the directory's colour or the configured one; `dir_short` is always the last part.
pub proof fn directories_in_their_forms(
    colors: Colors,
    facts: LineFacts,
    extras: PayloadExtras,
    api: Enrichment,
    config: LineConfig,
)
    requires
        config.layout.components.directory.max_length == 0,
        facts.current_dir@.len() > 0,
        facts.short_dir@.len() > 0,
        facts.basename@.len() > 0,
    ensures
        ({
            let v = line_variables(colors, facts, extras, api, config);
            let dir = config.layout.components.directory;
            let color = own_color(colors, dir.color@, colors.code(colors.theme.directory@));
            let reset = colors.reset_code();
            &&& dir.format@ == "full"@ ==> holds(v, "directory"@, color, facts.current_dir@, reset)
            &&& dir.format@ == "basename"@ ==> holds(v, "directory"@, color, facts.basename@, reset)
            &&& dir.format@ == "short"@ ==> holds(v, "directory"@, color, facts.short_dir@, reset)
            &&& holds(v, "dir_short"@, color, facts.basename@, reset)
        }),
{
    lemma_directory_forms(colors, facts, config);
    assert(is_place_name("directory"@) && is_place_name("dir_short"@));
    lemma_names();
    lemma_after_place(colors, facts, extras, api, config, "directory"@);
    lemma_after_place(colors, facts, extras, api, config, "dir_short"@);
}

proof fn lemma_directory_forms(colors: Colors, facts: LineFacts, config: LineConfig)
    requires
        config.layout.components.directory.max_length == 0,
        facts.current_dir@.len() > 0,
        facts.short_dir@.len() > 0,
        facts.basename@.len() > 0,
    ensures
        ({
            let v = placed(colors, facts, config);
            let dir = config.layout.components.directory;
            let color = own_color(colors, dir.color@, colors.code(colors.theme.directory@));
            let reset = colors.reset_code();
            &&& dir.format@ == "full"@ ==> holds(v, "directory"@, color, facts.current_dir@, reset)
            &&& dir.format@ == "basename"@ ==> holds(v, "directory"@, color, facts.basename@, reset)
            &&& dir.format@ == "short"@ ==> holds(v, "directory"@, color, facts.short_dir@, reset)
            &&& holds(v, "dir_short"@, color, facts.basename@, reset)
        }),
{
    assert("directory"@ != "dir_short"@ && "directory"@ != "git"@ && "directory"@ != "git_branch"@
        && "dir_short"@ != "git"@ && "dir_short"@ != "git_branch"@) by {
        lemma_names();
    }
    assert("full"@ != "basename"@ && "full"@ != "short"@ && "basename"@ != "short"@) by {
        reveal_strlit("full");
        reveal_strlit("basename");
        reveal_strlit("short");
        assert("full"@.len() == 4 && "basename"@.len() == 8 && "short"@.len() == 5);
    }
}

/// A text that is too long is cut in front: it keeps its last characters behind an ellipsis
/// and is exactly as long as allowed; any other stays as it is.
pub proof fn long_texts_keep_their_ends(s: Seq<char>, max: nat)
    ensures
        ({
            let t = crate::layout::variables::cut_front(s, max);
            &&& max == 0 || s.len() <= max ==> t == s
            &&& max > 0 && s.len() > max ==> t.len() == max && t[0] == '…' && ends_in(s, t.skip(1))
        }),
{
    reveal_strlit("…");
    if max > 0 && s.len() > max {
        let t = crate::layout::variables::cut_front(s, max);
        assert(t.skip(1) =~= s.skip(s.len() - max + 1));
        assert(s.skip(s.len() - t.skip(1).len()) =~= t.skip(1));
    }
}

/// The state of the working copy is shown as the line shows it, by its branch or by its
/// counts, as configured, and not at all where it should never show, or only when there
/// are changes and there are none; the branch has a variable of its own.
pub proof fn working_copies_in_their_forms(
    colors: Colors,
    facts: LineFacts,
    extras: PayloadExtras,
    api: Enrichment,
    config: LineConfig,
    g: GitFacts,
)
    requires
        facts.git matches Some(x) && *x == g,
    ensures
        ({
            let v = line_variables(colors, facts, extras, api, config);
            let git = config.layout.components.git;
            let color = own_color(colors, git.color@, colors.code(colors.theme.green@));
            let reset = colors.reset_code();
            let changed = g.added + g.modified + g.deleted + g.untracked > 0;
            let branch = cleaned(g.branch@);
            let shows = git.show_when@ != "never"@ && (git.show_when@ == "dirty"@ ==> changed);
            &&& !shows ==> !v.dom().contains("git"@) && !v.dom().contains("git_branch"@)
            &&& shows && branch.len() > 0 ==> holds(v, "git_branch"@, color, branch, reset)
            &&& shows && git.format@ == "branch"@ && branch.len() > 0 ==> holds(
                v,
                "git"@,
                color,
                branch,
                reset,
            )
            &&& shows && git.format@ == "full"@ && trimmed_start(g.info@).len() > 0
                ==> v.dom().contains("git"@) && v["git"@] == trimmed_start(g.info@)
            &&& shows && git.format@ == "status"@ && !changed ==> !v.dom().contains("git"@)
        }),
{
    lemma_names();
    reveal_strlit("full");
    reveal_strlit("branch");
    reveal_strlit("status");
    reveal_strlit("never");
    reveal_strlit("dirty");
    assert("full"@.len() == 4 && "branch"@.len() == 6 && "status"@.len() == 6);
    assert("branch"@[0] == 'b' && "status"@[0] == 's');
    assert("never"@[0] == 'n' && "dirty"@[0] == 'd');
    lemma_after_place(colors, facts, extras, api, config, "git"@);
    lemma_after_place(colors, facts, extras, api, config, "git_branch"@);
}

/// The counts of a working copy: what is added behind a plus, modified behind a tilde,
/// deleted behind a minus, untracked behind a question mark, each where there is any.
pub proof fn counts_of_a_working_copy(g: GitFacts)
    ensures
        ({
            let words = crate::display::template::status_words(g);
            &&& words is None <==> g.added == 0 && g.modified == 0 && g.deleted == 0 && g.untracked
                == 0
            &&& g.modified == 0 && g.deleted == 0 && g.untracked == 0 && g.added > 0 ==> words
                == Some("+"@ + dec(g.added as nat))
            &&& g.added == 0 && g.deleted == 0 && g.untracked == 0 && g.modified > 0 ==> words
                == Some("~"@ + dec(g.modified as nat))
            &&& g.added == 0 && g.modified == 0 && g.untracked == 0 && g.deleted > 0 ==> words
                == Some("-"@ + dec(g.deleted as nat))
            &&& g.added == 0 && g.modified == 0 && g.deleted == 0 && g.untracked > 0 ==> words
                == Some("?"@ + dec(g.untracked as nat))
            &&& g.added > 0 && words is Some ==> begins_with(words->Some_0, "+"@ + dec(g.added as nat))
            &&& g.untracked > 0 ==> ends_in(words->Some_0, "?"@ + dec(g.untracked as nat))
        }),
{
}

// ---------------------------------------------------------------------------
// Talk
// ---------------------------------------------------------------------------

proof fn lemma_context_stand(
    colors: Colors,
    facts: LineFacts,
    extras: PayloadExtras,
    api: Enrichment,
    config: LineConfig,
)
    ensures
        ({
            let all = line_variables(colors, facts, extras, api, config);
            let then = talked(colors, facts, extras, config);
            &&& all.dom().contains("context_pct"@) == then.dom().contains("context_pct"@)
            &&& then.dom().contains("context_pct"@) ==> all["context_pct"@] == then["context_pct"@]
            &&& all.dom().contains("context_tokens"@) == then.dom().contains("context_tokens"@)
            &&& then.dom().contains("context_tokens"@) ==> all["context_tokens"@] == then["context_tokens"@]
            &&& all.dom().contains("context"@) == then.dom().contains("context"@)
            &&& then.dom().contains("context"@) ==> all["context"@] == then["context"@]
        }),
{
    assert(!is_rates_name("context_pct"@) && !is_api_name("context_pct"@) && !is_payload_name("context_pct"@) && !is_spend_name("context_pct"@)) by {
        lemma_names();
    }
    lemma_after_talk(colors, facts, extras, api, config, "context_pct"@);
    assert(!is_rates_name("context_tokens"@) && !is_api_name("context_tokens"@) && !is_payload_name("context_tokens"@) && !is_spend_name("context_tokens"@)) by {
        lemma_names();
    }
    lemma_after_talk(colors, facts, extras, api, config, "context_tokens"@);
    assert(!is_rates_name("context"@) && !is_api_name("context"@) && !is_payload_name("context"@) && !is_spend_name("context"@)) by {
        lemma_names();
    }
    lemma_after_talk(colors, facts, extras, api, config, "context"@);
}

proof fn lemma_context_in_talk(
    m: Map<Seq<char>, Seq<char>>,
    colors: Colors,
    facts: LineFacts,
    extras: PayloadExtras,
    config: LineConfig,
    k: Seq<char>,
)
    requires
        k != "model"@ && k != "model_full"@ && k != "model_name"@ && k != "duration"@ && k
            != "lines"@,
    ensures
        ({
            let then = talk_variables(m, colors, facts, extras, config);
            let now = match shown_context(facts, extras, config.context_threshold) {
                Some(c) => crate::layout::variables::context_variables(
                    m,
                    "["@ + bar_cells(
                        c.usage.percentage,
                        config.display.progress_bar_width as nat,
                    ) + "]"@,
                    Some(c.usage.percentage.whole_part(u32::MAX as nat) as u32),
                    crate::display::template::token_counts(c),
                    config.layout.components.context,
                ),
                None => m,
            };
            same_at(then, now, k)
        }),
{
}

proof fn lemma_context_forms(
    m: Map<Seq<char>, Seq<char>>,
    bar: Seq<char>,
    percent: u32,
    tokens: u64,
    window: u64,
    config: crate::config::ContextComponentConfig,
)
    requires
        bar.len() > 0,
    ensures
        ({
            let v = crate::layout::variables::context_variables(
                m,
                bar,
                Some(percent),
                Some((tokens, window)),
                config,
            );
            let shown = dec(percent as nat) + "%"@;
            let counts = dec((tokens / 1000) as nat) + "k/"@ + dec((window / 1000) as nat) + "k"@;
            &&& v.dom().contains("context_pct"@) && v["context_pct"@] == shown
            &&& v.dom().contains("context_tokens"@) && v["context_tokens"@] == counts
            &&& v.dom().contains("context"@)
            &&& config.format@ == "percent"@ ==> v["context"@] == shown
            &&& config.format@ == "tokens"@ ==> v["context"@] == counts
            &&& config.format@ == "bar"@ ==> v["context"@] == bar
            &&& config.format@ == "full"@ && !config.show_tokens ==> v["context"@] == shown + " "@
                + bar
            &&& config.format@ == "full"@ && config.show_tokens ==> v["context"@] == shown + " "@
                + bar + " "@ + counts
        }),
{
    reveal_strlit("percent");
    reveal_strlit("tokens");
    reveal_strlit("bar");
    reveal_strlit("full");
    reveal_strlit("context");
    reveal_strlit("context_pct");
    reveal_strlit("context_tokens");
    assert("percent"@.len() == 7 && "tokens"@.len() == 6 && "bar"@.len() == 3 && "full"@.len() == 4);
    assert("context"@.len() == 7 && "context_pct"@.len() == 11 && "context_tokens"@.len() == 14);
}

/// The context's variables hold its percentage, cut off to a whole number, and the tokens
/// in it before the tokens it holds, both in thousands; `context` shows one of these or the
/// bar, as configured.
pub proof fn contexts_in_their_forms(
    colors: Colors,
    facts: LineFacts,
    extras: PayloadExtras,
    api: Enrichment,
    config: LineConfig,
    c: TranscriptContext,
    tokens: u32,
    window: u64,
)
    requires
        shown_context(facts, extras, config.context_threshold) == Some(c),
        c.tokens == Some(tokens),
        c.window == Some(window),
    ensures
        ({
            let v = line_variables(colors, facts, extras, api, config);
            let format = config.layout.components.context.format@;
            let percent = dec(c.usage.percentage.whole_part(u32::MAX as nat)) + "%"@;
            let counts = dec((tokens / 1000) as nat) + "k/"@ + dec((window / 1000) as nat) + "k"@;
            let bar = "["@ + bar_cells(
                c.usage.percentage,
                config.display.progress_bar_width as nat,
            ) + "]"@;
            &&& v.dom().contains("context_pct"@) && v["context_pct"@] == percent
            &&& v.dom().contains("context_tokens"@) && v["context_tokens"@] == counts
            &&& v.dom().contains("context"@)
            &&& format == "percent"@ ==> v["context"@] == percent
            &&& format == "tokens"@ ==> v["context"@] == counts
            &&& format == "bar"@ ==> v["context"@] == bar
            &&& format == "full"@ && !config.layout.components.context.show_tokens
                ==> v["context"@] == percent + " "@ + bar
            &&& format == "full"@ && config.layout.components.context.show_tokens ==> v["context"@]
                == percent + " "@ + bar + " "@ + counts
        }),
{
    let bar = "["@ + bar_cells(c.usage.percentage, config.display.progress_bar_width as nat) + "]"@;
    assert(bar.len() > 0) by {
        reveal_strlit("[");
    }
    let m = placed(colors, facts, config);
    lemma_context_stand(colors, facts, extras, api, config);
    assert("context"@ != "model"@ && "context"@ != "model_full"@ && "context"@ != "model_name"@
        && "context"@ != "duration"@ && "context"@ != "lines"@ && "context_pct"@ != "model"@
        && "context_pct"@ != "model_full"@ && "context_pct"@ != "model_name"@ && "context_pct"@
        != "duration"@ && "context_pct"@ != "lines"@ && "context_tokens"@ != "model"@
        && "context_tokens"@ != "model_full"@ && "context_tokens"@ != "model_name"@
        && "context_tokens"@ != "duration"@ && "context_tokens"@ != "lines"@) by {
        lemma_names();
    }
    lemma_context_in_talk(m, colors, facts, extras, config, "context"@);
    lemma_context_in_talk(m, colors, facts, extras, config, "context_pct"@);
    lemma_context_in_talk(m, colors, facts, extras, config, "context_tokens"@);
    lemma_context_forms(
        m,
        bar,
        c.usage.percentage.whole_part(u32::MAX as nat) as u32,
        tokens as u64,
        window,
        config.layout.components.context,
    );
}

/// Without a context there are no variables of it.
pub proof fn no_context_no_variables(
    colors: Colors,
    facts: LineFacts,
    extras: PayloadExtras,
    api: Enrichment,
    config: LineConfig,
)
    requires
        shown_context(facts, extras, config.context_threshold) is None,
    ensures
        ({
            let v = line_variables(colors, facts, extras, api, config);
            &&& !v.dom().contains("context_pct"@)
            &&& !v.dom().contains("context_tokens"@)
            &&& !v.dom().contains("context"@)
        }),
{
    lemma_names();
    lemma_after_talk(colors, facts, extras, api, config, "context_pct"@);
    lemma_after_talk(colors, facts, extras, api, config, "context_tokens"@);
    lemma_after_talk(colors, facts, extras, api, config, "context"@);
}

/// The model is shown abbreviated, in full, by its family or by its version, as configured;
/// `model_full` and `model_name` hold its full name and its family.
pub proof fn models_in_their_forms(
    colors: Colors,
    facts: LineFacts,
    extras: PayloadExtras,
    api: Enrichment,
    config: LineConfig,
    m: ModelFacts,
)
    requires
        facts.model matches Some(x) && *x == m,
        m.abbreviation@.len() > 0,
        cleaned(m.name@).len() > 0,
        m.family@.len() > 0,
        m.version@.len() > 0,
    ensures
        ({
            let v = line_variables(colors, facts, extras, api, config);
            let model = config.layout.components.model;
            let color = own_color(colors, model.color@, colors.code(colors.theme.model@));
            let reset = colors.reset_code();
            &&& model.format@ == "abbreviation"@ ==> holds(
                v,
                "model"@,
                color,
                m.abbreviation@,
                reset,
            )
            &&& model.format@ == "full"@ ==> holds(v, "model"@, color, cleaned(m.name@), reset)
            &&& model.format@ == "name"@ ==> holds(v, "model"@, color, m.family@, reset)
            &&& model.format@ == "version"@ ==> holds(v, "model"@, color, m.version@, reset)
            &&& holds(v, "model_full"@, color, cleaned(m.name@), reset)
            &&& holds(v, "model_name"@, color, m.family@, reset)
        }),
{
    lemma_names();
    reveal_strlit("abbreviation");
    reveal_strlit("full");
    reveal_strlit("name");
    reveal_strlit("version");
    assert("abbreviation"@.len() == 12 && "version"@.len() == 7);
    assert("full"@.len() == 4 && "name"@.len() == 4 && "full"@[0] == 'f' && "name"@[0] == 'n');
    lemma_after_talk(colors, facts, extras, api, config, "model"@);
    lemma_after_talk(colors, facts, extras, api, config, "model_full"@);
    lemma_after_talk(colors, facts, extras, api, config, "model_name"@);
}

/// The duration is the one that the transcript spans; lines added stand behind a plus in
/// their colour and lines removed behind a minus in theirs.
pub proof fn durations_and_lines(
    colors: Colors,
    facts: LineFacts,
    extras: PayloadExtras,
    api: Enrichment,
    config: LineConfig,
    seconds: u64,
    cost: Cost,
    added: u64,
    removed: u64,
)
    requires
        facts.transcript_duration == Some(seconds),
        duration_digits(seconds as nat).len() > 0,
        facts.cost matches Some(x) && *x == cost,
        cost.total_lines_added == Some(added),
        cost.total_lines_removed == Some(removed),
    ensures
        ({
            let v = line_variables(colors, facts, extras, api, config);
            let reset = colors.reset_code();
            let plus = colors.code(colors.theme.lines_added@) + "+"@ + dec(added as nat) + reset;
            let minus = colors.code(colors.theme.lines_removed@) + "-"@ + dec(removed as nat)
                + reset;
            &&& holds(
                v,
                "duration"@,
                colors.code(colors.theme.duration@),
                duration_digits(seconds as nat),
                reset,
            )
            &&& v.dom().contains("lines"@) <==> added > 0 || removed > 0
            &&& added > 0 && removed > 0 ==> v["lines"@] == plus + " "@ + minus
            &&& added > 0 && removed == 0 ==> v["lines"@] == plus
            &&& added == 0 && removed > 0 ==> v["lines"@] == minus
        }),
{
    lemma_names();
    lemma_after_talk(colors, facts, extras, api, config, "duration"@);
    lemma_after_talk(colors, facts, extras, api, config, "lines"@);
}

// ---------------------------------------------------------------------------
// Spend
// ---------------------------------------------------------------------------

proof fn lemma_spend_stand(
    colors: Colors,
    facts: LineFacts,
    extras: PayloadExtras,
    api: Enrichment,
    config: LineConfig,
)
    ensures
        ({
            let all = line_variables(colors, facts, extras, api, config);
            let then = spent_on(colors, facts, extras, config);
            &&& all.dom().contains("cost_short"@) == then.dom().contains("cost_short"@)
            &&& then.dom().contains("cost_short"@) ==> all["cost_short"@] == then["cost_short"@]
            &&& all.dom().contains("burn_rate"@) == then.dom().contains("burn_rate"@)
            &&& then.dom().contains("burn_rate"@) ==> all["burn_rate"@] == then["burn_rate"@]
            &&& all.dom().contains("daily_total"@) == then.dom().contains("daily_total"@)
            &&& then.dom().contains("daily_total"@) ==> all["daily_total"@] == then["daily_total"@]
            &&& all.dom().contains("cost"@) == then.dom().contains("cost"@)
            &&& then.dom().contains("cost"@) ==> all["cost"@] == then["cost"@]
        }),
{
    assert(!is_rates_name("cost_short"@) && !is_api_name("cost_short"@) && !is_payload_name("cost_short"@)) by {
        lemma_names();
    }
    lemma_after_spend(colors, facts, extras, api, config, "cost_short"@);
    assert(!is_rates_name("burn_rate"@) && !is_api_name("burn_rate"@) && !is_payload_name("burn_rate"@)) by {
        lemma_names();
    }
    lemma_after_spend(colors, facts, extras, api, config, "burn_rate"@);
    assert(!is_rates_name("daily_total"@) && !is_api_name("daily_total"@) && !is_payload_name("daily_total"@)) by {
        lemma_names();
    }
    lemma_after_spend(colors, facts, extras, api, config, "daily_total"@);
    assert(!is_rates_name("cost"@) && !is_api_name("cost"@) && !is_payload_name("cost"@)) by {
        lemma_names();
    }
    lemma_after_spend(colors, facts, extras, api, config, "cost"@);
}

proof fn lemma_cost_forms(
    m: Map<Seq<char>, Seq<char>>,
    t: Double,
    burn: Option<Double>,
    daily: Option<Double>,
    color: Seq<char>,
    gray: Seq<char>,
    reset: Seq<char>,
    format: Seq<char>,
)
    requires
        !m.dom().contains("burn_rate"@),
        !m.dom().contains("daily_total"@),
    ensures
        ({
            let v = crate::layout::variables::set_opt(
                crate::layout::cost::cost_figures(m, Some(t), burn, daily, color, gray, reset),
                "cost"@,
                crate::layout::cost::cost_value(Some(t), burn, daily, color, gray, reset, format),
            );
            let has_rate = burn is Some && burn->Some_0.is_positive();
            let has_day = daily is Some && daily->Some_0.is_positive();
            let session = color + ("$"@ + t.digits(2)) + reset;
            &&& holds(v, "cost_short"@, color, "$"@ + t.digits(0), reset)
            &&& v.dom().contains("burn_rate"@) <==> has_rate
            &&& has_rate ==> holds(
                v,
                "burn_rate"@,
                gray,
                "$"@ + burn->Some_0.digits(2) + "/hr"@,
                reset,
            )
            &&& v.dom().contains("daily_total"@) <==> has_day
            &&& has_day ==> holds(
                v,
                "daily_total"@,
                color,
                "$"@ + daily->Some_0.digits(2),
                reset,
            )
            &&& format == "cost_only"@ ==> v.dom().contains("cost"@) && v["cost"@] == session
            &&& format == "rate_only"@ && has_rate ==> v.dom().contains("cost"@) && v["cost"@]
                == v["burn_rate"@]
            &&& format == "with_daily"@ && has_day ==> v.dom().contains("cost"@) && v["cost"@]
                == session + " "@ + ("day:"@ + v["daily_total"@])
            &&& format == "full"@ && has_rate ==> v.dom().contains("cost"@) && v["cost"@]
                == session + " "@ + ("("@ + v["burn_rate"@] + ")"@)
            &&& format == "full"@ && !has_rate ==> v.dom().contains("cost"@) && v["cost"@]
                == session
        }),
{
    reveal_strlit("cost");
    reveal_strlit("cost_short");
    reveal_strlit("burn_rate");
    reveal_strlit("daily_total");
    reveal_strlit("cost_only");
    reveal_strlit("rate_only");
    reveal_strlit("with_daily");
    reveal_strlit("full");
    assert("cost"@.len() == 4 && "cost_short"@.len() == 10 && "burn_rate"@.len() == 9
        && "daily_total"@.len() == 11);
    assert("cost_only"@.len() == 9 && "rate_only"@.len() == 9 && "with_daily"@.len() == 10
        && "full"@.len() == 4);
    assert("cost_only"@[0] == 'c' && "rate_only"@[0] == 'r');
    assert(color + "$"@ + t.digits(0) + reset =~= color + ("$"@ + t.digits(0)) + reset);
    assert(color + "$"@ + t.digits(2) + reset =~= color + ("$"@ + t.digits(2)) + reset);
    let d = daily->Some_0;
    assert(color + "$"@ + d.digits(2) + reset =~= color + ("$"@ + d.digits(2)) + reset);
    let r = burn->Some_0;
    assert(gray + "$"@ + r.digits(2) + "/hr"@ + reset =~= gray + ("$"@ + r.digits(2) + "/hr"@)
        + reset);
}

proof fn lemma_nothing_spent_before(
    colors: Colors,
    facts: LineFacts,
    extras: PayloadExtras,
    config: LineConfig,
)
    ensures
        ({
            let m = talked(colors, facts, extras, config);
            &&& !m.dom().contains("burn_rate"@)
            &&& !m.dom().contains("daily_total"@)
            &&& !m.dom().contains("cost_short"@)
            &&& !m.dom().contains("cost"@)
        }),
{
    let m = placed(colors, facts, config);
    assert(!is_talk_name("burn_rate"@) && !is_talk_name("daily_total"@) && !is_talk_name(
        "cost_short"@,
    ) && !is_talk_name("cost"@)) by {
        lemma_names();
    }
    lemma_talk_keep(m, colors, facts, extras, config, "burn_rate"@);
    lemma_talk_keep(m, colors, facts, extras, config, "daily_total"@);
    lemma_talk_keep(m, colors, facts, extras, config, "cost_short"@);
    lemma_talk_keep(m, colors, facts, extras, config, "cost"@);
    assert(!is_place_name("burn_rate"@) && !is_place_name("daily_total"@) && !is_place_name(
        "cost_short"@,
    ) && !is_place_name("cost"@)) by {
        lemma_names();
    }
    lemma_place_keep(colors, facts, config.layout, "burn_rate"@);
    lemma_place_keep(colors, facts, config.layout, "daily_total"@);
    lemma_place_keep(colors, facts, config.layout, "cost_short"@);
    lemma_place_keep(colors, facts, config.layout, "cost"@);
}

spec fn is_place_name(k: Seq<char>) -> bool {
    ||| k == "directory"@
    ||| k == "dir_short"@
    ||| k == "git"@
    ||| k == "git_branch"@
}

proof fn lemma_place_keep(colors: Colors, facts: LineFacts, layout: LayoutConfig, k: Seq<char>)
    requires
        !is_place_name(k),
    ensures
        !place_variables(Map::empty(), colors, facts, layout).dom().contains(k),
{
}

/// The cost's variables hold the session's cost, what it costs an hour, and the day's total
/// where that is more, each its own; `cost` shows them as configured.
pub proof fn costs_in_their_forms(
    colors: Colors,
    facts: LineFacts,
    extras: PayloadExtras,
    api: Enrichment,
    config: LineConfig,
    cost: Cost,
    t: Double,
)
    requires
        facts.cost matches Some(x) && *x == cost,
        cost.total_cost_usd == Some(t),
    ensures
        ({
            let v = line_variables(colors, facts, extras, api, config);
            let settings = config.layout.components.cost;
            let color = own_color(colors, settings.color@, colors.cost_code(t));
            let gray = colors.code(colors.theme.light_gray@);
            let reset = colors.reset_code();
            let rate = burn_rate(
                t,
                lasted(
                    facts.session_duration,
                    facts.transcript_duration,
                    cost.total_duration_ms,
                ),
                config.burn_rate.min_duration_seconds,
            );
            let day = facts.daily_total;
            let has_rate = rate is Some && rate->Some_0.is_positive();
            let has_day = t.below(day) && day.is_positive();
            let session = color + ("$"@ + t.digits(2)) + reset;
            &&& holds(v, "cost_short"@, color, "$"@ + t.digits(0), reset)
            &&& v.dom().contains("burn_rate"@) <==> has_rate
            &&& has_rate ==> holds(
                v,
                "burn_rate"@,
                gray,
                "$"@ + rate->Some_0.digits(2) + "/hr"@,
                reset,
            )
            &&& v.dom().contains("daily_total"@) <==> has_day
            &&& has_day ==> holds(v, "daily_total"@, color, "$"@ + day.digits(2), reset)
            &&& settings.format@ == "cost_only"@ ==> v.dom().contains("cost"@) && v["cost"@]
                == session
            &&& settings.format@ == "rate_only"@ && has_rate ==> v.dom().contains("cost"@)
                && v["cost"@] == v["burn_rate"@]
            &&& settings.format@ == "with_daily"@ && has_day ==> v.dom().contains("cost"@)
                && v["cost"@] == session + " "@ + ("day:"@ + v["daily_total"@])
            &&& settings.format@ == "full"@ && has_rate ==> v.dom().contains("cost"@) && v["cost"@]
                == session + " "@ + ("("@ + v["burn_rate"@] + ")"@)
            &&& settings.format@ == "full"@ && !has_rate ==> v.dom().contains("cost"@)
                && v["cost"@] == session
        }),
{
    lemma_spend_stand(colors, facts, extras, api, config);
    lemma_nothing_spent_before(colors, facts, extras, config);
    let settings = config.layout.components.cost;
    let rate = burn_rate(
        t,
        lasted(facts.session_duration, facts.transcript_duration, cost.total_duration_ms),
        config.burn_rate.min_duration_seconds,
    );
    lemma_cost_forms(
        talked(colors, facts, extras, config),
        t,
        rate,
        if t.below(facts.daily_total) {
            Some(facts.daily_total)
        } else {
            None
        },
        own_color(colors, settings.color@, colors.cost_code(t)),
        colors.code(colors.theme.light_gray@),
        colors.reset_code(),
        settings.format@,
    );
}

/// Where no session's cost is known, there are no variables of it.
pub proof fn no_cost_no_variables(
    colors: Colors,
    facts: LineFacts,
    extras: PayloadExtras,
    api: Enrichment,
    config: LineConfig,
)
    requires
        facts.cost matches Some(x) ==> x.total_cost_usd is None,
    ensures
        ({
            let v = line_variables(colors, facts, extras, api, config);
            &&& !v.dom().contains("cost_short"@)
            &&& !v.dom().contains("burn_rate"@)
            &&& !v.dom().contains("daily_total"@)
            &&& !v.dom().contains("cost"@)
        }),
{
    lemma_spend_stand(colors, facts, extras, api, config);
    lemma_nothing_spent_before(colors, facts, extras, config);
}

// ---------------------------------------------------------------------------
// What the payload tells
// ---------------------------------------------------------------------------

spec fn with_limits(colors: Colors, facts: LineFacts, extras: PayloadExtras, config: LineConfig) -> Map<
    Seq<char>,
    Seq<char>,
> {
    let m = spent_on(colors, facts, extras, config);
    match extras.rate_limits {
        Some(rl) => crate::display::template::allowance_variables(
            m,
            colors,
            *rl,
            facts.now as int,
            config.display.rate_limit_reset_countdown,
        ),
        None => m,
    }
}

spec fn with_agents(colors: Colors, facts: LineFacts, extras: PayloadExtras, config: LineConfig) -> Map<
    Seq<char>,
    Seq<char>,
> {
    let m = with_limits(colors, facts, extras, config);
    match extras.agents {
        Some(x) => agents_variables(
            m,
            *x,
            colors.code(colors.theme.light_gray@),
            colors.reset_code(),
        ),
        None => m,
    }
}

spec fn with_cache(colors: Colors, facts: LineFacts, extras: PayloadExtras, config: LineConfig) -> Map<
    Seq<char>,
    Seq<char>,
> {
    let m = with_agents(colors, facts, extras, config);
    match extras.prompt_cache {
        Some(x) => prompt_cache_variables(
            m,
            *x,
            colors.code(colors.theme.light_gray@),
            colors.reset_code(),
        ),
        None => m,
    }
}

proof fn lemma_after_cache(
    colors: Colors,
    facts: LineFacts,
    extras: PayloadExtras,
    api: Enrichment,
    config: LineConfig,
    k: Seq<char>,
)
    requires
        !is_rates_name(k),
        !is_api_name(k),
        !is_session_name(k),
    ensures
        ({
            let all = line_variables(colors, facts, extras, api, config);
            let then = with_cache(colors, facts, extras, config);
            &&& all.dom().contains(k) == then.dom().contains(k)
            &&& then.dom().contains(k) ==> all[k] == then[k]
        }),
{
    lemma_after_payload(colors, facts, extras, api, config, k);
    lemma_session_keep(
        with_cache(colors, facts, extras, config),
        opt_str(extras.effort),
        opt_str(extras.version),
        extras.exceeds_200k == Some(true),
        match extras.repo {
            Some(r) => opt_view(r.owner),
            None => None,
        },
        match extras.repo {
            Some(r) => opt_view(r.name),
            None => None,
        },
        colors.code(colors.theme.gray@),
        colors.reset_code(),
        k,
    );
}

proof fn lemma_after_agents(
    colors: Colors,
    facts: LineFacts,
    extras: PayloadExtras,
    api: Enrichment,
    config: LineConfig,
    k: Seq<char>,
)
    requires
        !is_rates_name(k),
        !is_api_name(k),
        !is_session_name(k),
        !is_cache_name(k),
    ensures
        ({
            let all = line_variables(colors, facts, extras, api, config);
            let then = with_agents(colors, facts, extras, config);
            &&& all.dom().contains(k) == then.dom().contains(k)
            &&& then.dom().contains(k) ==> all[k] == then[k]
        }),
{
    lemma_after_cache(colors, facts, extras, api, config, k);
    match extras.prompt_cache {
        Some(x) => lemma_cache_keep(
            with_agents(colors, facts, extras, config),
            *x,
            colors.code(colors.theme.light_gray@),
            colors.reset_code(),
            k,
        ),
        None => {},
    }
}

proof fn lemma_after_limits(
    colors: Colors,
    facts: LineFacts,
    extras: PayloadExtras,
    api: Enrichment,
    config: LineConfig,
    k: Seq<char>,
)
    requires
        !is_rates_name(k),
        !is_api_name(k),
        !is_session_name(k),
        !is_cache_name(k),
        !is_agents_name(k),
    ensures
        ({
            let all = line_variables(colors, facts, extras, api, config);
            let then = with_limits(colors, facts, extras, config);
            &&& all.dom().contains(k) == then.dom().contains(k)
            &&& then.dom().contains(k) ==> all[k] == then[k]
        }),
{
    lemma_after_agents(colors, facts, extras, api, config, k);
    match extras.agents {
        Some(x) => lemma_agents_keep(
            with_limits(colors, facts, extras, config),
            *x,
            colors.code(colors.theme.light_gray@),
            colors.reset_code(),
            k,
        ),
        None => {},
    }
}

proof fn lemma_limit_forms(
    m: Map<Seq<char>, Seq<char>>,
    five: Option<Seq<char>>,
    five_reset: Option<Seq<char>>,
    seven: Option<Seq<char>>,
    seven_reset: Option<Seq<char>>,
    color: Seq<char>,
    reset: Seq<char>,
)
    ensures
        ({
            let v = crate::layout::session::limit_variables(
                m,
                five,
                five_reset,
                seven,
                seven_reset,
                color,
                reset,
            );
            &&& five matches Some(t) ==> holds(v, "rate_limit_5h"@, color, t, reset)
            &&& seven matches Some(t) ==> holds(v, "rate_limit_7d"@, color, t, reset)
            &&& five_reset matches Some(t) ==> holds(v, "rate_limit_5h_reset"@, color, t, reset)
            &&& seven_reset matches Some(t) ==> holds(v, "rate_limit_7d_reset"@, color, t, reset)
            &&& five is Some && seven is Some ==> v.dom().contains("rate_limits"@)
                && v["rate_limits"@] == v["rate_limit_5h"@] + " "@ + v["rate_limit_7d"@]
            &&& five is Some && seven is None ==> v.dom().contains("rate_limits"@)
                && v["rate_limits"@] == v["rate_limit_5h"@]
            &&& five is None && seven is Some ==> v.dom().contains("rate_limits"@)
                && v["rate_limits"@] == v["rate_limit_7d"@]
        }),
{
    reveal_strlit("rate_limit_5h");
    reveal_strlit("rate_limit_5h_reset");
    reveal_strlit("rate_limit_7d");
    reveal_strlit("rate_limit_7d_reset");
    reveal_strlit("rate_limits");
    assert("rate_limit_5h"@.len() == 13 && "rate_limit_5h"@[11] == '5');
    assert("rate_limit_7d"@.len() == 13 && "rate_limit_7d"@[11] == '7');
    assert("rate_limit_5h_reset"@.len() == 19 && "rate_limit_5h_reset"@[11] == '5');
    assert("rate_limit_7d_reset"@.len() == 19 && "rate_limit_7d_reset"@[11] == '7');
    assert("rate_limits"@.len() == 11);
}

/// The variables of the limits hold, each of its own window, how much is used and how long
/// it lasts; `rate_limits` holds the window of five hours before that of seven days.
pub proof fn limits_hold_their_own_windows(
    colors: Colors,
    facts: LineFacts,
    extras: PayloadExtras,
    api: Enrichment,
    config: LineConfig,
    five: RateLimitWindow,
    seven: RateLimitWindow,
    p: Double,
    q: Double,
    five_end: i64,
    seven_end: i64,
)
    requires
        extras.rate_limits matches Some(x) && *x == (RateLimits {
            five_hour: Some(five),
            seven_day: Some(seven),
        }),
        five.used_percentage == Some(p),
        seven.used_percentage == Some(q),
        five.resets_at == Some(five_end),
        seven.resets_at == Some(seven_end),
        !config.display.rate_limit_reset_countdown,
    ensures
        ({
            let v = line_variables(colors, facts, extras, api, config);
            let gray = colors.code(colors.theme.light_gray@);
            let reset = colors.reset_code();
            &&& holds(v, "rate_limit_5h"@, gray, "5h"@ + ":"@ + dec_int(p.rounded()) + "%"@, reset)
            &&& holds(v, "rate_limit_7d"@, gray, "7d"@ + ":"@ + dec_int(q.rounded()) + "%"@, reset)
            &&& countdown(five_end - facts.now) matches Some(t) ==> holds(
                v,
                "rate_limit_5h_reset"@,
                gray,
                t,
                reset,
            )
            &&& countdown(seven_end - facts.now) matches Some(t) ==> holds(
                v,
                "rate_limit_7d_reset"@,
                gray,
                t,
                reset,
            )
            &&& v.dom().contains("rate_limits"@) && v["rate_limits"@] == v["rate_limit_5h"@] + " "@
                + v["rate_limit_7d"@]
        }),
{
    assert forall|k: Seq<char>| #[trigger] is_limits_name(k) implies !is_rates_name(k)
        && !is_api_name(k) && !is_session_name(k) && !is_cache_name(k) && !is_agents_name(k) by {
        lemma_names();
    }
    assert(is_limits_name("rate_limit_5h"@));
    assert(is_limits_name("rate_limit_7d"@));
    assert(is_limits_name("rate_limit_5h_reset"@));
    assert(is_limits_name("rate_limit_7d_reset"@));
    assert(is_limits_name("rate_limits"@));
    lemma_after_limits(colors, facts, extras, api, config, "rate_limit_5h"@);
    lemma_after_limits(colors, facts, extras, api, config, "rate_limit_7d"@);
    lemma_after_limits(colors, facts, extras, api, config, "rate_limit_5h_reset"@);
    lemma_after_limits(colors, facts, extras, api, config, "rate_limit_7d_reset"@);
    lemma_after_limits(colors, facts, extras, api, config, "rate_limits"@);
    lemma_limit_forms(
        spent_on(colors, facts, extras, config),
        Some("5h"@ + ":"@ + dec_int(p.rounded()) + "%"@),
        countdown(five_end - facts.now),
        Some("7d"@ + ":"@ + dec_int(q.rounded()) + "%"@),
        countdown(seven_end - facts.now),
        colors.code(colors.theme.light_gray@),
        colors.reset_code(),
    );
}

/// Where the time left is asked for, it stands in brackets behind how much of its own window
/// is used.
pub proof fn limits_count_down_where_asked(
    colors: Colors,
    facts: LineFacts,
    extras: PayloadExtras,
    api: Enrichment,
    config: LineConfig,
    five: RateLimitWindow,
    seven: RateLimitWindow,
    p: Double,
    q: Double,
    five_end: i64,
    seven_end: i64,
    a: Seq<char>,
    b: Seq<char>,
)
    requires
        extras.rate_limits matches Some(x) && *x == (RateLimits {
            five_hour: Some(five),
            seven_day: Some(seven),
        }),
        five.used_percentage == Some(p),
        seven.used_percentage == Some(q),
        five.resets_at == Some(five_end),
        seven.resets_at == Some(seven_end),
        countdown(five_end - facts.now) == Some(a),
        countdown(seven_end - facts.now) == Some(b),
        config.display.rate_limit_reset_countdown,
    ensures
        ({
            let v = line_variables(colors, facts, extras, api, config);
            let gray = colors.code(colors.theme.light_gray@);
            let reset = colors.reset_code();
            let first = "5h"@ + ":"@ + dec_int(p.rounded()) + "%"@ + " ("@ + a + ")"@;
            let then = "7d"@ + ":"@ + dec_int(q.rounded()) + "%"@ + " ("@ + b + ")"@;
            &&& holds(v, "rate_limit_5h"@, gray, first, reset)
            &&& holds(v, "rate_limit_7d"@, gray, then, reset)
            &&& holds(v, "rate_limit_5h_reset"@, gray, a, reset)
            &&& holds(v, "rate_limit_7d_reset"@, gray, b, reset)
            &&& v.dom().contains("rate_limits"@) && v["rate_limits"@] == v["rate_limit_5h"@] + " "@
                + v["rate_limit_7d"@]
        }),
{
    assert forall|k: Seq<char>| #[trigger] is_limits_name(k) implies !is_rates_name(k)
        && !is_api_name(k) && !is_session_name(k) && !is_cache_name(k) && !is_agents_name(k) by {
        lemma_names();
    }
    assert(is_limits_name("rate_limit_5h"@));
    assert(is_limits_name("rate_limit_7d"@));
    assert(is_limits_name("rate_limit_5h_reset"@));
    assert(is_limits_name("rate_limit_7d_reset"@));
    assert(is_limits_name("rate_limits"@));
    lemma_after_limits(colors, facts, extras, api, config, "rate_limit_5h"@);
    lemma_after_limits(colors, facts, extras, api, config, "rate_limit_7d"@);
    lemma_after_limits(colors, facts, extras, api, config, "rate_limit_5h_reset"@);
    lemma_after_limits(colors, facts, extras, api, config, "rate_limit_7d_reset"@);
    lemma_after_limits(colors, facts, extras, api, config, "rate_limits"@);
    lemma_limit_forms(
        spent_on(colors, facts, extras, config),
        Some("5h"@ + ":"@ + dec_int(p.rounded()) + "%"@ + " ("@ + a + ")"@),
        Some(a),
        Some("7d"@ + ":"@ + dec_int(q.rounded()) + "%"@ + " ("@ + b + ")"@),
        Some(b),
        colors.code(colors.theme.light_gray@),
        colors.reset_code(),
    );
}

proof fn lemma_agents_forms(
    m: Map<Seq<char>, Seq<char>>,
    s: AgentsSummary,
    color: Seq<char>,
    reset: Seq<char>,
)
    requires
        s.agent_files > 0,
    ensures
        ({
            let v = agents_variables(m, s, color, reset);
            let taken = (s.agents.input_tokens + s.agents.cache_read_tokens
                + s.agents.cache_creation_tokens) as nat;
            &&& agents_piece(s) matches Some(t) ==> holds(v, "agents"@, color, t, reset)
            &&& holds(v, "agents_count"@, color, dec(s.agent_files as nat), reset)
            &&& holds(v, "agents_tokens"@, color, short_count(taken), reset)
        }),
{
    reveal_strlit("agents");
    reveal_strlit("agents_count");
    reveal_strlit("agents_pct");
    reveal_strlit("agents_tokens");
    reveal_strlit("agents_types");
    assert("agents"@.len() == 6 && "agents_count"@.len() == 12 && "agents_pct"@.len() == 10
        && "agents_tokens"@.len() == 13 && "agents_types"@.len() == 12);
    assert("agents_count"@[8] == 'o' && "agents_types"@[8] == 'y');
}

/// The variables of the agents hold what the line shows of them, their number, and what
/// they took in; without agents there are none.
pub proof fn agents_hold_their_own(
    colors: Colors,
    facts: LineFacts,
    extras: PayloadExtras,
    api: Enrichment,
    config: LineConfig,
    s: AgentsSummary,
)
    requires
        extras.agents matches Some(x) && *x == s,
        s.agent_files > 0,
    ensures
        ({
            let v = line_variables(colors, facts, extras, api, config);
            let gray = colors.code(colors.theme.light_gray@);
            let reset = colors.reset_code();
            let taken = (s.agents.input_tokens + s.agents.cache_read_tokens
                + s.agents.cache_creation_tokens) as nat;
            &&& agents_piece(s) matches Some(t) ==> holds(v, "agents"@, gray, t, reset)
            &&& holds(v, "agents_count"@, gray, dec(s.agent_files as nat), reset)
            &&& holds(v, "agents_tokens"@, gray, short_count(taken), reset)
        }),
{
    assert forall|k: Seq<char>| #[trigger] is_agents_name(k) implies !is_rates_name(k)
        && !is_api_name(k) && !is_session_name(k) && !is_cache_name(k) by {
        lemma_names();
    }
    assert(is_agents_name("agents"@));
    assert(is_agents_name("agents_count"@));
    assert(is_agents_name("agents_tokens"@));
    lemma_after_agents(colors, facts, extras, api, config, "agents"@);
    lemma_after_agents(colors, facts, extras, api, config, "agents_count"@);
    lemma_after_agents(colors, facts, extras, api, config, "agents_tokens"@);
    lemma_agents_forms(
        with_limits(colors, facts, extras, config),
        s,
        colors.code(colors.theme.light_gray@),
        colors.reset_code(),
    );
}

/// The agents' share is theirs of what all were given, in whole percent, and their kinds
/// stand with how many there are of each.
pub proof fn agents_hold_their_share_and_kinds(
    colors: Colors,
    facts: LineFacts,
    extras: PayloadExtras,
    api: Enrichment,
    config: LineConfig,
    s: AgentsSummary,
)
    requires
        extras.agents matches Some(x) && *x == s,
        s.agent_files > 0,
    ensures
        ({
            let v = line_variables(colors, facts, extras, api, config);
            let gray = colors.code(colors.theme.light_gray@);
            let reset = colors.reset_code();
            let theirs = s.agents.traffic();
            let all = s.main.traffic() + s.agents.traffic();
            let kinds = joined(counted(in_order(s.agent_types.names()), s.agent_types@), " "@);
            &&& all > 0 ==> holds(
                v,
                "agents_pct"@,
                gray,
                fraction_digits(share_fraction(theirs, all), 0) + "%"@,
                reset,
            )
            &&& kinds.len() > 0 ==> holds(v, "agents_types"@, gray, kinds, reset)
        }),
{
    assert forall|k: Seq<char>| #[trigger] is_agents_name(k) implies !is_rates_name(k)
        && !is_api_name(k) && !is_session_name(k) && !is_cache_name(k) by {
        lemma_names();
    }
    assert(is_agents_name("agents_pct"@));
    assert(is_agents_name("agents_types"@));
    lemma_after_agents(colors, facts, extras, api, config, "agents_pct"@);
    lemma_after_agents(colors, facts, extras, api, config, "agents_types"@);
    assert("agents_pct"@ != "agents_tokens"@ && "agents_pct"@ != "agents_types"@) by {
        lemma_names();
    }
}

/// Each kind of agents stands with its number behind its name.
pub proof fn kinds_stand_with_their_numbers(
    names: Seq<Seq<char>>,
    counts: Map<Seq<char>, u32>,
    i: int,
)
    requires
        0 <= i < names.len(),
    ensures
        counted(names, counts).len() == names.len(),
        counted(names, counts)[i] == names[i] + ":"@ + dec(counts[names[i]] as nat),
{
}

proof fn lemma_cache_forms(
    m: Map<Seq<char>, Seq<char>>,
    p: PromptCache,
    color: Seq<char>,
    reset: Seq<char>,
)
    ensures
        ({
            let v = prompt_cache_variables(m, p, color, reset);
            &&& prompt_cache_piece(p) matches Some(t) ==> holds(v, "prompt_cache"@, color, t, reset)
            &&& p.hit_ratio matches Some(r) ==> holds(
                v,
                "cache_hit"@,
                color,
                r.times(100).digits(0) + "%"@,
                reset,
            )
            &&& p.misses matches Some(n) ==> holds(v, "cache_misses"@, color, dec(n as nat), reset)
            &&& p.last_miss_causes@.len() > 0 ==> holds(
                v,
                "cache_miss_cause"@,
                color,
                p.last_miss_causes@[0]@,
                reset,
            )
        }),
{
    reveal_strlit("prompt_cache");
    reveal_strlit("cache_hit");
    reveal_strlit("cache_misses");
    reveal_strlit("cache_miss_cause");
    assert("prompt_cache"@.len() == 12 && "cache_hit"@.len() == 9 && "cache_misses"@.len() == 12
        && "cache_miss_cause"@.len() == 16);
    assert("prompt_cache"@[0] == 'p' && "cache_misses"@[0] == 'c');
}

/// The variables of the cache hold what the line shows of it, its hits in percent, its
/// misses, and the first cause of the last miss.
pub proof fn the_cache_holds_its_own(
    colors: Colors,
    facts: LineFacts,
    extras: PayloadExtras,
    api: Enrichment,
    config: LineConfig,
    p: PromptCache,
)
    requires
        extras.prompt_cache matches Some(x) && *x == p,
    ensures
        ({
            let v = line_variables(colors, facts, extras, api, config);
            let gray = colors.code(colors.theme.light_gray@);
            let reset = colors.reset_code();
            &&& prompt_cache_piece(p) matches Some(t) ==> holds(v, "prompt_cache"@, gray, t, reset)
            &&& p.hit_ratio matches Some(r) ==> holds(
                v,
                "cache_hit"@,
                gray,
                r.times(100).digits(0) + "%"@,
                reset,
            )
            &&& p.misses matches Some(n) ==> holds(v, "cache_misses"@, gray, dec(n as nat), reset)
            &&& p.last_miss_causes@.len() > 0 ==> holds(
                v,
                "cache_miss_cause"@,
                gray,
                p.last_miss_causes@[0]@,
                reset,
            )
        }),
{
    assert forall|k: Seq<char>| #[trigger] is_cache_name(k) implies !is_rates_name(k)
        && !is_api_name(k) && !is_session_name(k) by {
        lemma_names();
    }
    assert(is_cache_name("prompt_cache"@));
    assert(is_cache_name("cache_hit"@));
    assert(is_cache_name("cache_misses"@));
    assert(is_cache_name("cache_miss_cause"@));
    lemma_after_cache(colors, facts, extras, api, config, "prompt_cache"@);
    lemma_after_cache(colors, facts, extras, api, config, "cache_hit"@);
    lemma_after_cache(colors, facts, extras, api, config, "cache_misses"@);
    lemma_after_cache(colors, facts, extras, api, config, "cache_miss_cause"@);
    lemma_cache_forms(
        with_agents(colors, facts, extras, config),
        p,
        colors.code(colors.theme.light_gray@),
        colors.reset_code(),
    );
}

/// The variables of the session hold its effort, the version that runs it, whether its last
/// response was over large, and the repository by owner and name.
pub proof fn sessions_hold_their_own(
    colors: Colors,
    facts: LineFacts,
    extras: PayloadExtras,
    api: Enrichment,
    config: LineConfig,
    effort: Seq<char>,
    version: Seq<char>,
    repo: Repo,
    owner: Seq<char>,
    name: Seq<char>,
)
    requires
        opt_str(extras.effort) == Some(effort),
        opt_str(extras.version) == Some(version),
        extras.exceeds_200k == Some(true),
        extras.repo matches Some(x) && *x == repo,
        opt_view(repo.owner) == Some(owner),
        opt_view(repo.name) == Some(name),
    ensures
        ({
            let v = line_variables(colors, facts, extras, api, config);
            let gray = colors.code(colors.theme.gray@);
            let reset = colors.reset_code();
            &&& holds(v, "effort"@, gray, effort, reset)
            &&& holds(v, "cc_version"@, gray, "v"@ + version, reset)
            &&& holds(v, "over_200k"@, gray, "200k+"@, reset)
            &&& holds(v, "repo"@, gray, owner + "/"@ + name, reset)
        }),
{
    assert forall|k: Seq<char>| #[trigger] is_session_name(k) implies !is_rates_name(k)
        && !is_api_name(k) by {
        lemma_names();
    }
    assert(is_session_name("effort"@));
    assert(is_session_name("cc_version"@));
    assert(is_session_name("over_200k"@));
    assert(is_session_name("repo"@));
    lemma_after_payload(colors, facts, extras, api, config, "effort"@);
    lemma_after_payload(colors, facts, extras, api, config, "cc_version"@);
    lemma_after_payload(colors, facts, extras, api, config, "over_200k"@);
    lemma_after_payload(colors, facts, extras, api, config, "repo"@);
    lemma_session_forms(
        with_cache(colors, facts, extras, config),
        effort,
        version,
        owner,
        name,
        colors.code(colors.theme.gray@),
        colors.reset_code(),
    );
}

proof fn lemma_session_forms(
    m: Map<Seq<char>, Seq<char>>,
    effort: Seq<char>,
    version: Seq<char>,
    owner: Seq<char>,
    name: Seq<char>,
    color: Seq<char>,
    reset: Seq<char>,
)
    ensures
        ({
            let v = crate::layout::session::session_variables(
                m,
                Some(effort),
                Some(version),
                true,
                Some(owner),
                Some(name),
                color,
                reset,
            );
            &&& holds(v, "effort"@, color, effort, reset)
            &&& holds(v, "cc_version"@, color, "v"@ + version, reset)
            &&& holds(v, "over_200k"@, color, "200k+"@, reset)
            &&& holds(v, "repo"@, color, owner + "/"@ + name, reset)
        }),
{
    reveal_strlit("effort");
    reveal_strlit("cc_version");
    reveal_strlit("over_200k");
    reveal_strlit("repo");
    reveal_strlit("/");
    assert("effort"@.len() == 6 && "cc_version"@.len() == 10 && "over_200k"@.len() == 9
        && "repo"@.len() == 4);
    assert("/"@.len() == 1);
}

/// What the payload does not tell has no variable: no effort, no version, no repository
/// without both an owner and a name, and no word of size unless it was too large.
pub proof fn what_is_not_told_has_no_variable(
    colors: Colors,
    facts: LineFacts,
    extras: PayloadExtras,
    api: Enrichment,
    config: LineConfig,
)
    ensures
        ({
            let v = line_variables(colors, facts, extras, api, config);
            &&& extras.effort is None ==> !v.dom().contains("effort"@)
            &&& extras.version is None ==> !v.dom().contains("cc_version"@)
            &&& extras.exceeds_200k != Some(true) ==> !v.dom().contains("over_200k"@)
            &&& (extras.repo matches Some(r) ==> r.owner is None || r.name is None)
                ==> !v.dom().contains("repo"@)
        }),
{
    assert forall|k: Seq<char>| #[trigger] is_session_name(k) implies !is_rates_name(k)
        && !is_api_name(k) && !is_cache_name(k) && !is_agents_name(k) && !is_limits_name(k)
        && !is_spend_name(k) && !is_talk_name(k) && !is_place_name(k) by {
        lemma_names();
    }
    assert(is_session_name("effort"@));
    assert(is_session_name("cc_version"@));
    assert(is_session_name("over_200k"@));
    assert(is_session_name("repo"@));
    lemma_session_unset(colors, facts, extras, api, config, "effort"@);
    lemma_session_unset(colors, facts, extras, api, config, "cc_version"@);
    lemma_session_unset(colors, facts, extras, api, config, "over_200k"@);
    lemma_session_unset(colors, facts, extras, api, config, "repo"@);
    reveal_strlit("effort");
    reveal_strlit("cc_version");
    reveal_strlit("over_200k");
    reveal_strlit("repo");
    assert("effort"@.len() == 6 && "cc_version"@.len() == 10 && "over_200k"@.len() == 9
        && "repo"@.len() == 4);
}

proof fn lemma_session_unset(
    colors: Colors,
    facts: LineFacts,
    extras: PayloadExtras,
    api: Enrichment,
    config: LineConfig,
    k: Seq<char>,
)
    requires
        !is_rates_name(k),
        !is_api_name(k),
        !is_cache_name(k),
        !is_agents_name(k),
        !is_limits_name(k),
        !is_spend_name(k),
        !is_talk_name(k),
        !is_place_name(k),
    ensures
        !with_cache(colors, facts, extras, config).dom().contains(k),
        line_variables(colors, facts, extras, api, config).dom().contains(k) == told(
            colors,
            facts,
            extras,
            config,
        ).dom().contains(k),
{
    lemma_after_payload(colors, facts, extras, api, config, k);
    lemma_place_keep(colors, facts, config.layout, k);
    lemma_talk_keep(placed(colors, facts, config), colors, facts, extras, config, k);
    lemma_spend_keep(talked(colors, facts, extras, config), colors, facts, config, k);
    let gray = colors.code(colors.theme.light_gray@);
    let reset = colors.reset_code();
    match extras.rate_limits {
        Some(x) => lemma_limits_keep(
            spent_on(colors, facts, extras, config),
            colors,
            *x,
            facts.now as int,
            config.display.rate_limit_reset_countdown,
            k,
        ),
        None => {},
    }
    match extras.agents {
        Some(x) => lemma_agents_keep(with_limits(colors, facts, extras, config), *x, gray, reset, k),
        None => {},
    }
    match extras.prompt_cache {
        Some(x) => lemma_cache_keep(with_agents(colors, facts, extras, config), *x, gray, reset, k),
        None => {},
    }
}

// ---------------------------------------------------------------------------
// What the programming interface tells
// ---------------------------------------------------------------------------

proof fn lemma_api_forms(
    m: Map<Seq<char>, Seq<char>>,
    api: Enrichment,
    u: crate::ant::cache::UsageCache,
    color: Seq<char>,
    reset: Seq<char>,
)
    requires
        api.usage == Some(u),
    ensures
        ({
            let v = api_variables(m, api, color, reset);
            &&& holds(v, "api_cost_today"@, color, "$"@ + u.today_usd.digits(2), reset)
            &&& holds(v, "api_cost_mtd"@, color, "$"@ + u.mtd_usd.digits(2), reset)
            &&& u.account@.len() > 0 ==> holds(v, "api_account"@, color, u.account@, reset)
            &&& u.tz@.len() > 0 ==> holds(v, "api_tz"@, color, u.tz@, reset)
        }),
{
    lemma_api_names();
}

proof fn lemma_api_names()
    ensures
        "api_cost_today"@.len() == 14 && "api_cost_today"@[4] == 'c',
        "api_cost_mtd"@.len() == 12,
        "api_tokens_by_model"@.len() == 19,
        "api_account"@.len() == 11,
        "api_tz"@.len() == 6,
        "api_usage_age"@.len() == 13,
        "api_models_age"@.len() == 14 && "api_models_age"@[4] == 'm',
{
    reveal_strlit("api_cost_today");
    reveal_strlit("api_cost_mtd");
    reveal_strlit("api_tokens_by_model");
    reveal_strlit("api_account");
    reveal_strlit("api_tz");
    reveal_strlit("api_usage_age");
    reveal_strlit("api_models_age");
}

/// The usage that was fetched is held by its own names: today's cost, the month's, the
/// account and the time zone.
pub proof fn usage_is_held_by_its_names(
    colors: Colors,
    facts: LineFacts,
    extras: PayloadExtras,
    api: Enrichment,
    config: LineConfig,
    u: crate::ant::cache::UsageCache,
)
    requires
        api.usage == Some(u),
    ensures
        ({
            let v = line_variables(colors, facts, extras, api, config);
            let gray = colors.code(colors.theme.light_gray@);
            let reset = colors.reset_code();
            &&& holds(v, "api_cost_today"@, gray, "$"@ + u.today_usd.digits(2), reset)
            &&& holds(v, "api_cost_mtd"@, gray, "$"@ + u.mtd_usd.digits(2), reset)
            &&& u.account@.len() > 0 ==> holds(v, "api_account"@, gray, u.account@, reset)
            &&& u.tz@.len() > 0 ==> holds(v, "api_tz"@, gray, u.tz@, reset)
        }),
{
    assert(!is_rates_name("api_cost_today"@) && !is_rates_name("api_cost_mtd"@) && !is_rates_name(
        "api_account"@,
    ) && !is_rates_name("api_tz"@)) by {
        lemma_names();
    }
    lemma_after_api(colors, facts, extras, api, config, "api_cost_today"@);
    lemma_after_api(colors, facts, extras, api, config, "api_cost_mtd"@);
    lemma_after_api(colors, facts, extras, api, config, "api_account"@);
    lemma_after_api(colors, facts, extras, api, config, "api_tz"@);
    lemma_api_forms(
        told(colors, facts, extras, config),
        api,
        u,
        colors.code(colors.theme.light_gray@),
        colors.reset_code(),
    );
}

/// How old the usage and the models are is held by names of their own, each with the word
/// that it is stale where that one is.
pub proof fn ages_are_held_by_their_names(
    colors: Colors,
    facts: LineFacts,
    extras: PayloadExtras,
    api: Enrichment,
    config: LineConfig,
    usage: CacheAge,
    models: CacheAge,
)
    requires
        api.usage_age == Some(usage),
        api.models_age == Some(models),
    ensures
        ({
            let v = line_variables(colors, facts, extras, api, config);
            let gray = colors.code(colors.theme.light_gray@);
            let reset = colors.reset_code();
            &&& usage.stale ==> holds(
                v,
                "api_usage_age"@,
                gray,
                usage.text@ + " (stale)"@,
                reset,
            )
            &&& !usage.stale ==> holds(v, "api_usage_age"@, gray, usage.text@, reset)
            &&& models.stale ==> holds(
                v,
                "api_models_age"@,
                gray,
                models.text@ + " (stale)"@,
                reset,
            )
            &&& !models.stale ==> holds(v, "api_models_age"@, gray, models.text@, reset)
        }),
{
    assert(!is_rates_name("api_usage_age"@) && !is_rates_name("api_models_age"@)) by {
        lemma_names();
    }
    lemma_after_api(colors, facts, extras, api, config, "api_usage_age"@);
    lemma_after_api(colors, facts, extras, api, config, "api_models_age"@);
    lemma_api_names();
}

// ---------------------------------------------------------------------------
// Rates
// ---------------------------------------------------------------------------

/// A rate by the second.
pub open spec fn per_second(color: Seq<char>, rate: Double, reset: Seq<char>) -> Seq<char> {
    color + rate_in_unit(rate, "second"@) + " "@ + "tok/s"@ + reset
}

/// The variables of the rates hold, each its own: what goes in, fresh and from the cache;
/// what comes out; both together; what comes from the cache; and the tokens of the session
/// and of the day.
pub proof fn rates_hold_their_own(
    colors: Colors,
    facts: LineFacts,
    extras: PayloadExtras,
    api: Enrichment,
    config: LineConfig,
    x: TokenRateMetrics,
)
    requires
        facts.token_rates matches Some(y) && *y == x,
        config.layout.components.token_rate.time_unit@ == "second"@,
    ensures
        ({
            let v = line_variables(colors, facts, extras, api, config);
            let color = own_color(
                colors,
                config.layout.components.token_rate.color@,
                colors.code(colors.theme.light_gray@),
            );
            let reset = colors.reset_code();
            let format = config.layout.components.token_rate.format@;
            &&& v.dom().contains("token_input_rate"@) && v["token_input_rate"@] == per_second(
                color,
                x.input_rate.plus(x.cache_read_rate),
                reset,
            )
            &&& v.dom().contains("token_output_rate"@) && v["token_output_rate"@] == per_second(
                color,
                x.output_rate,
                reset,
            )
            &&& v.dom().contains("token_rate_only"@) && v["token_rate_only"@] == per_second(
                color,
                x.total_rate,
                reset,
            )
            &&& config.token_rate.cache_metrics ==> v.dom().contains("token_cache_rate"@)
                && v["token_cache_rate"@] == per_second(color, x.cache_read_rate, reset)
            &&& holds(
                v,
                "token_session_total"@,
                color,
                token_count(x.session_total_tokens as nat),
                reset,
            )
            &&& holds(
                v,
                "token_daily_total"@,
                color,
                "day: "@ + token_count(x.daily_total_tokens as nat),
                reset,
            )
            &&& v.dom().contains("token_rate"@)
        }),
{
    let color = own_color(
        colors,
        config.layout.components.token_rate.color@,
        colors.code(colors.theme.light_gray@),
    );
    lemma_rates_forms(
        enriched(colors, facts, extras, api, config),
        x,
        colors.code(colors.theme.light_gray@),
        colors.reset_code(),
        config.layout.components.token_rate,
        config.token_rate,
        colors,
        color,
    );
}

proof fn lemma_rates_forms(
    m: Map<Seq<char>, Seq<char>>,
    x: TokenRateMetrics,
    default_color: Seq<char>,
    reset: Seq<char>,
    component: TokenRateComponentConfig,
    config: TokenRateConfig,
    colors: Colors,
    color: Seq<char>,
)
    requires
        component.time_unit@ == "second"@,
        color == own_color(colors, component.color@, default_color),
    ensures
        ({
            let v = metrics_variables(m, x, default_color, reset, component, config, colors);
            &&& v.dom().contains("token_input_rate"@) && v["token_input_rate"@] == per_second(
                color,
                x.input_rate.plus(x.cache_read_rate),
                reset,
            )
            &&& v.dom().contains("token_output_rate"@) && v["token_output_rate"@] == per_second(
                color,
                x.output_rate,
                reset,
            )
            &&& v.dom().contains("token_rate_only"@) && v["token_rate_only"@] == per_second(
                color,
                x.total_rate,
                reset,
            )
            &&& config.cache_metrics ==> v.dom().contains("token_cache_rate"@)
                && v["token_cache_rate"@] == per_second(color, x.cache_read_rate, reset)
            &&& holds(
                v,
                "token_session_total"@,
                color,
                token_count(x.session_total_tokens as nat),
                reset,
            )
            &&& holds(
                v,
                "token_daily_total"@,
                color,
                "day: "@ + token_count(x.daily_total_tokens as nat),
                reset,
            )
            &&& v.dom().contains("token_rate"@)
        }),
{
    reveal_strlit("second");
    reveal_strlit("minute");
    reveal_strlit("hour");
    assert("second"@.len() == 6 && "minute"@.len() == 6 && "hour"@.len() == 4);
    assert("second"@[0] == 's' && "minute"@[0] == 'm');
    reveal_strlit("token_input_rate");
    reveal_strlit("token_output_rate");
    reveal_strlit("token_rate_only");
    reveal_strlit("token_cache_rate");
    reveal_strlit("token_cache_hit");
    reveal_strlit("token_cache_roi");
    reveal_strlit("token_session_total");
    reveal_strlit("token_daily_total");
    reveal_strlit("token_rate");
    assert("token_input_rate"@.len() == 16 && "token_input_rate"@[6] == 'i');
    assert("token_cache_rate"@.len() == 16 && "token_cache_rate"@[6] == 'c');
    assert("token_output_rate"@.len() == 17 && "token_output_rate"@[6] == 'o');
    assert("token_daily_total"@.len() == 17 && "token_daily_total"@[6] == 'd');
    assert("token_rate_only"@.len() == 15 && "token_rate_only"@[6] == 'r');
    assert("token_cache_hit"@.len() == 15 && "token_cache_hit"@[12] == 'h');
    assert("token_cache_roi"@.len() == 15 && "token_cache_roi"@[12] == 'r');
    assert("token_rate_only"@[12] == 'n');
    assert("token_session_total"@.len() == 19 && "token_rate"@.len() == 10);
    assert(color + "day: "@ + token_count(x.daily_total_tokens as nat) + reset =~= color + ("day: "@
        + token_count(x.daily_total_tokens as nat)) + reset);
}

/// `token_rate` shows all tokens together, or in detail what goes in and what comes out,
/// or the cache, as configured; then, as its format asks, the session's tokens, the day's in
/// brackets, or both in this order.
pub proof fn the_rate_in_its_forms(
    colors: Colors,
    facts: LineFacts,
    extras: PayloadExtras,
    api: Enrichment,
    config: LineConfig,
    x: TokenRateMetrics,
)
    requires
        facts.token_rates matches Some(y) && *y == x,
        config.layout.components.token_rate.time_unit@ == "second"@,
    ensures
        ({
            let v = line_variables(colors, facts, extras, api, config);
            let component = config.layout.components.token_rate;
            let color = own_color(
                colors,
                component.color@,
                colors.code(colors.theme.light_gray@),
            );
            let reset = colors.reset_code();
            let mode = config.token_rate.display_mode@;
            let sides = config.token_rate.rate_display@;
            let day = color + "(day: "@ + token_count(x.daily_total_tokens as nat) + ")"@ + reset;
            let shown = v["token_rate"@];
            let all = v["token_rate_only"@];
            let taken = v["token_input_rate"@];
            let given = v["token_output_rate"@];
            &&& mode == "summary"@ && component.format@ == "rate_only"@ ==> shown == all
            &&& mode == "summary"@ && component.format@ == "with_session"@ ==> shown == all
                + " • "@ + v["token_session_total"@]
            &&& mode == "summary"@ && component.format@ == "with_daily"@ ==> shown == all + " "@
                + day
            &&& mode == "summary"@ && component.format@ == "full"@ ==> shown == all + " • "@
                + v["token_session_total"@] + " "@ + day
            &&& mode == "detailed"@ && component.format@ == "rate_only"@ && sides == "output_only"@
                ==> shown == color + "Out:"@ + given + reset
            &&& mode == "detailed"@ && component.format@ == "rate_only"@ && sides == "input_only"@
                ==> shown == color + "In:"@ + taken + reset
            &&& mode == "detailed"@ && component.format@ == "rate_only"@ && sides == "both"@
                ==> shown == color + "In:"@ + taken + " Out:"@ + given + reset
        }),
{
    let component = config.layout.components.token_rate;
    let color = own_color(colors, component.color@, colors.code(colors.theme.light_gray@));
    let gray = colors.code(colors.theme.light_gray@);
    let reset = colors.reset_code();
    let m = enriched(colors, facts, extras, api, config);
    lemma_rates_forms(m, x, gray, reset, component, config.token_rate, colors, color);
    let v = metrics_variables(m, x, gray, reset, component, config.token_rate, colors);
    let shown = crate::layout::rates::shown_rates(
        x,
        component.time_unit@,
        color,
        reset,
        config.token_rate,
    );
    assert(v["token_rate"@] == crate::layout::rates::rate_in_format(
        shown,
        x.session_total_tokens as nat,
        x.daily_total_tokens as nat,
        color,
        reset,
        component.format@,
    ));
    lemma_shown_rates(x, color, reset, config.token_rate);
    lemma_format_words();
}

proof fn lemma_format_words()
    ensures
        "rate_only"@ != "with_session"@ && "rate_only"@ != "with_daily"@ && "rate_only"@ != "full"@,
        "with_session"@ != "with_daily"@ && "with_session"@ != "full"@ && "with_daily"@ != "full"@,
{
    reveal_strlit("rate_only");
    reveal_strlit("with_session");
    reveal_strlit("with_daily");
    reveal_strlit("full");
    assert("rate_only"@.len() == 9 && "with_session"@.len() == 12 && "with_daily"@.len() == 10
        && "full"@.len() == 4);
}

proof fn lemma_shown_rates(
    x: TokenRateMetrics,
    color: Seq<char>,
    reset: Seq<char>,
    config: TokenRateConfig,
)
    ensures
        ({
            let shown = crate::layout::rates::shown_rates(x, "second"@, color, reset, config);
            let taken = per_second(color, x.input_rate.plus(x.cache_read_rate), reset);
            let given = per_second(color, x.output_rate, reset);
            let sides = config.rate_display@;
            let mode = config.display_mode@;
            &&& mode == "summary"@ ==> shown == per_second(color, x.total_rate, reset)
            &&& mode == "detailed"@ && sides == "output_only"@ ==> shown == color + "Out:"@ + given
                + reset
            &&& mode == "detailed"@ && sides == "input_only"@ ==> shown == color + "In:"@ + taken
                + reset
            &&& mode == "detailed"@ && sides == "both"@ ==> shown == color + "In:"@ + taken
                + " Out:"@ + given + reset
        }),
{
    reveal_strlit("second");
    reveal_strlit("minute");
    reveal_strlit("hour");
    assert("second"@.len() == 6 && "minute"@.len() == 6 && "hour"@.len() == 4);
    assert("second"@[0] == 's' && "minute"@[0] == 'm');
    reveal_strlit("summary");
    reveal_strlit("detailed");
    reveal_strlit("cache_only");
    reveal_strlit("both");
    reveal_strlit("output_only");
    reveal_strlit("input_only");
    assert("summary"@.len() == 7 && "detailed"@.len() == 8 && "cache_only"@.len() == 10);
    assert("output_only"@.len() == 11 && "input_only"@.len() == 10 && "both"@.len() == 4);
}

/// The cache's variables among the rates hold its hits in whole percent, cut off, and how
/// often it paid for itself, with one place, or that it cost nothing.
pub proof fn the_caches_worth(
    colors: Colors,
    facts: LineFacts,
    extras: PayloadExtras,
    api: Enrichment,
    config: LineConfig,
    x: TokenRateMetrics,
    ratio: Double,
    worth: Double,
)
    requires
        facts.token_rates matches Some(y) && *y == x,
        config.token_rate.cache_metrics,
        x.cache_hit_ratio == Some(ratio),
        x.cache_roi == Some(worth),
    ensures
        ({
            let v = line_variables(colors, facts, extras, api, config);
            &&& v.dom().contains("token_cache_hit"@) && v["token_cache_hit"@] == dec(
                ratio.times(100).whole_part(255),
            ) + "%"@
            &&& v.dom().contains("token_cache_roi"@)
            &&& worth.is_infinite() ==> v["token_cache_roi"@] == "∞"@
            &&& !worth.is_infinite() ==> v["token_cache_roi"@] == worth.digits(1) + "x"@
        }),
{
    assert("token_cache_hit"@ != "token_cache_roi"@ && "token_cache_hit"@ != "token_session_total"@
        && "token_cache_hit"@ != "token_daily_total"@ && "token_cache_hit"@ != "token_rate"@
        && "token_cache_roi"@ != "token_session_total"@ && "token_cache_roi"@
        != "token_daily_total"@ && "token_cache_roi"@ != "token_rate"@) by {
        lemma_names();
    }
}

// ---------------------------------------------------------------------------
// Rates whose totals may be missing
// ---------------------------------------------------------------------------

/// A rate in the unit that is asked for is written with that unit's name.
pub proof fn units_are_written_by_name(
    rate: Double,
    color: Seq<char>,
    reset: Seq<char>,
    other: Seq<char>,
)
    ensures
        rate_with_unit(rate, "minute"@, color, reset) == color + rate_in_unit(rate, "minute"@)
            + " "@ + "tok/min"@ + reset,
        rate_with_unit(rate, "hour"@, color, reset) == color + rate_in_unit(rate, "hour"@) + " "@
            + "tok/hr"@ + reset,
        other != "minute"@ && other != "hour"@ ==> rate_with_unit(rate, other, color, reset)
            == color + rate_in_unit(rate, other) + " "@ + "tok/s"@ + reset,
{
    reveal_strlit("minute");
    reveal_strlit("hour");
    assert("minute"@.len() == 6 && "hour"@.len() == 4);
}

/// A rate is shown in its unit, where there is any, with the totals that are known and that
/// the format asks for: the session's behind a dot, the day's in brackets.
pub proof fn rates_with_known_totals(
    b: VariableBuilder,
    rate: Double,
    session: u64,
    daily: u64,
    default_color: &str,
    reset: &str,
    config: &TokenRateComponentConfig,
    colors: &Colors,
    r: VariableBuilder,
)
    requires
        rate.is_positive(),
        call_ensures(
            VariableBuilder::token_rate_with_config,
            (b, rate, Some(session), Some(daily), default_color, reset, config, colors),
            r,
        ),
    ensures
        ({
            let color = own_color(*colors, config.color@, default_color@);
            let only = rate_with_unit(rate, config.time_unit@, color, reset@);
            let mine = color + token_count(session as nat) + reset@;
            let day = color + "(day: "@ + token_count(daily as nat) + ")"@ + reset@;
            &&& r@.dom().contains("token_rate_only"@) && r@["token_rate_only"@] == only
            &&& r@.dom().contains("token_session_total"@) && r@["token_session_total"@] == mine
            &&& r@.dom().contains("token_daily_total"@) && r@["token_daily_total"@] == color
                + "day: "@ + token_count(daily as nat) + reset@
            &&& r@.dom().contains("token_rate"@)
            &&& config.format@ == "rate_only"@ ==> r@["token_rate"@] == only
            &&& config.format@ == "with_session"@ ==> r@["token_rate"@] == only + " • "@ + mine
            &&& config.format@ == "with_daily"@ ==> r@["token_rate"@] == only + " "@ + day
            &&& config.format@ == "full"@ ==> r@["token_rate"@] == only + " • "@ + mine + " "@ + day
        }),
{
    lemma_names();
    lemma_format_words();
    lemma_rate_is_written(
        rate,
        config.time_unit@,
        own_color(*colors, config.color@, default_color@),
        reset@,
    );
}

proof fn lemma_rate_is_written(rate: Double, unit: Seq<char>, color: Seq<char>, reset: Seq<char>)
    ensures
        rate_with_unit(rate, unit, color, reset).len() > 0,
{
    reveal_strlit(" ");
    assert(" "@.len() == 1);
}

/// Totals that are not known have no variable, and neither has a rate that is none; with
/// nothing known nothing is set.
pub proof fn unknown_totals_have_no_variable(
    b: VariableBuilder,
    rate: Double,
    default_color: &str,
    reset: &str,
    config: &TokenRateComponentConfig,
    colors: &Colors,
    r: VariableBuilder,
)
    requires
        call_ensures(
            VariableBuilder::token_rate_with_config,
            (b, rate, None::<u64>, None::<u64>, default_color, reset, config, colors),
            r,
        ),
    ensures
        ({
            let only = rate_with_unit(
                rate,
                config.time_unit@,
                own_color(*colors, config.color@, default_color@),
                reset@,
            );
            &&& rate.at_most(Double::zero()) ==> r@ == b@
            &&& rate.is_positive() ==> r@ == b@.insert("token_rate_only"@, only).insert(
                "token_rate"@,
                only,
            )
        }),
{
    lemma_format_words();
    lemma_rate_is_written(
        rate,
        config.time_unit@,
        own_color(*colors, config.color@, default_color@),
        reset@,
    );
}

/// A total that is known shows though there is no rate: the session's with nothing before
/// it, the day's in brackets.
pub proof fn totals_show_without_a_rate(
    b: VariableBuilder,
    rate: Double,
    session: u64,
    daily: u64,
    default_color: &str,
    reset: &str,
    config: &TokenRateComponentConfig,
    colors: &Colors,
    r: VariableBuilder,
    d: VariableBuilder,
)
    requires
        !rate.is_positive(),
        call_ensures(
            VariableBuilder::token_rate_with_config,
            (b, rate, Some(session), None::<u64>, default_color, reset, config, colors),
            r,
        ),
        call_ensures(
            VariableBuilder::token_rate_with_config,
            (b, rate, None::<u64>, Some(daily), default_color, reset, config, colors),
            d,
        ),
    ensures
        ({
            let color = own_color(*colors, config.color@, default_color@);
            let mine = color + token_count(session as nat) + reset@;
            let day = color + "(day: "@ + token_count(daily as nat) + ")"@ + reset@;
            &&& r@.dom().contains("token_session_total"@) && r@["token_session_total"@] == mine
            &&& config.format@ == "with_session"@ && mine.len() > 0 ==> r@["token_rate"@] == mine
            &&& config.format@ == "with_daily"@ ==> d@.dom().contains("token_rate"@)
                && d@["token_rate"@] == day
        }),
{
    lemma_names();
    lemma_format_words();
    reveal_strlit("(day: ");
    assert("(day: "@.len() == 6);
}

/// A plain rate is written by the second with one place, where there is one.
pub proof fn plain_rates(b: VariableBuilder, rate: Double, color: &str, reset: &str, r: VariableBuilder)
    requires
        call_ensures(VariableBuilder::token_rate, (b, rate, color, reset), r),
    ensures
        rate.is_positive() ==> r@ == b@.insert(
            "token_rate"@,
            color@ + rate.digits(1) + " tok/s"@ + reset@,
        ),
        !rate.is_positive() ==> r@ == b@,
{
}

// ---------------------------------------------------------------------------
// The enrichment
// ---------------------------------------------------------------------------

/// Where the enrichment is on, it shows the usage that was fetched and how old each cache
/// is, by its own time and its own threshold; where it is off, nothing.
pub proof fn each_cache_has_its_own_age(
    ant: &AntConfig,
    u: UsageCache,
    models: &ModelsCache,
    now: Timestamp,
    r: Enrichment,
    only_usage: Enrichment,
    only_models: Enrichment,
)
    requires
        call_ensures(enrichment, (ant, Some(u), Some(models), now), r),
        call_ensures(enrichment, (ant, Some(u), None::<&ModelsCache>, now), only_usage),
        call_ensures(enrichment, (ant, None::<UsageCache>, Some(models), now), only_models),
    ensures
        ant.enabled ==> ({
            let a = seconds_between(u.fetched_at, now);
            let b = seconds_between(models.fetched_at, now);
            &&& r.usage == Some(u)
            &&& r.usage_age matches Some(x)
            &&& x.text@ == age_text(a)
            &&& x.stale == past_threshold(a, ant.usage_stale_after@)
            &&& r.models_age matches Some(y)
            &&& y.text@ == age_text(b)
            &&& y.stale == past_threshold(b, ant.models_stale_after@)
            &&& only_usage.usage == Some(u) && only_usage.usage_age is Some
            &&& only_usage.models_age is None
            &&& only_models.usage is None && only_models.usage_age is None
            &&& only_models.models_age is Some
        }),
        !ant.enabled ==> r.usage is None && r.usage_age is None && r.models_age is None,
{
}

/// Each model of the account stands with all its tokens behind its name, in the order of
/// the names.
pub proof fn models_stand_with_their_tokens(
    names: Seq<Seq<char>>,
    tokens: Map<Seq<char>, TokenBreakdown>,
    i: int,
)
    requires
        0 <= i < names.len(),
    ensures
        spent(names, tokens).len() == names.len(),
        ({
            let t = tokens[names[i]];
            let n = t.uncached_input + t.cache_read_input + t.cache_creation_1h
                + t.cache_creation_5m + t.output;
            n <= u64::MAX ==> spent(names, tokens)[i] == names[i] + ":"@ + short_count(n as nat)
        }),
{
}

/// `api_tokens_by_model` holds the models with their tokens, one behind another.
pub proof fn tokens_are_held_by_model(
    colors: Colors,
    facts: LineFacts,
    extras: PayloadExtras,
    api: Enrichment,
    config: LineConfig,
    u: UsageCache,
)
    requires
        api.usage == Some(u),
    ensures
        ({
            let v = line_variables(colors, facts, extras, api, config);
            let all = joined(spent(in_order(u.tokens_by_model.names()), u.tokens_by_model@), " "@);
            all.len() > 0 ==> holds(
                v,
                "api_tokens_by_model"@,
                colors.code(colors.theme.light_gray@),
                all,
                colors.reset_code(),
            )
        }),
{
    assert("api_tokens_by_model"@ != "api_account"@ && "api_tokens_by_model"@ != "api_tz"@
        && "api_tokens_by_model"@ != "api_usage_age"@ && "api_tokens_by_model"@
        != "api_models_age"@) by {
        lemma_api_names();
    }
    assert(!is_rates_name("api_tokens_by_model"@)) by {
        lemma_names();
    }
    lemma_after_api(colors, facts, extras, api, config, "api_tokens_by_model"@);
}

} // verus!
