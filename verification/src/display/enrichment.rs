//! What the enrichment adds to the line: the account's usage, and how old the caches are.
//! It is opt-in: turned off, or without caches, it adds nothing.

use crate::agents::{short_count, short_tokens};
use crate::ant::cache::{capped, ModelsCache, TokenBreakdown, UsageCache};
use crate::ant::config::AntConfig;
use crate::ant::duration::{age_text, humanize_age, is_stale, past_threshold};
use crate::clock::{seconds_between, Timestamp};
use crate::layout::format::{paint, painted};
use crate::layout::session::painted_opt;
use crate::layout::variables::{set_opt, set_painted, VariableBuilder};
use crate::text::{concat2, concat3, in_order, join, joined, opt_str, views};
use crate::text_map::TextMap;
use vstd::prelude::*;

verus! {

// ---------------------------------------------------------------------------
// What there is to show
// ---------------------------------------------------------------------------

/// The age of a cache in words, and whether it is stale.
#[derive(Debug)]
pub struct CacheAge {
    pub text: String,
    pub stale: bool,
}

/// What the enrichment has to show.
#[derive(Debug)]
pub struct Enrichment {
    /// The account's usage and cost.
    pub usage: Option<UsageCache>,
    pub usage_age: Option<CacheAge>,
    pub models_age: Option<CacheAge>,
}

impl Enrichment {
    /// Nothing to show.
    pub open spec fn is_empty(self) -> bool {
        self.usage is None && self.usage_age is None && self.models_age is None
    }

    /// Nothing to show.
    pub fn none() -> (r: Enrichment)
        ensures
            r.is_empty(),
    {
        Enrichment { usage: None, usage_age: None, models_age: None }
    }
}

/// Whether an age is the one of a cache that was fetched then.
pub open spec fn describes_age(
    r: Option<CacheAge>,
    fetched_at: Option<Timestamp>,
    now: Timestamp,
    threshold: Seq<char>,
) -> bool {
    match fetched_at {
        Some(t) => {
            &&& r is Some
            &&& r->Some_0.text@ == age_text(seconds_between(t, now))
            &&& r->Some_0.stale == past_threshold(seconds_between(t, now), threshold)
        },
        None => r is None,
    }
}

pub open spec fn usage_time(usage: Option<UsageCache>) -> Option<Timestamp> {
    match usage {
        Some(u) => Some(u.fetched_at),
        None => None,
    }
}

pub open spec fn models_time(models: Option<&ModelsCache>) -> Option<Timestamp> {
    match models {
        Some(m) => Some(m.fetched_at),
        None => None,
    }
}

/// Whether what is shown is what there is: nothing unless the enrichment is on, and nothing
/// of a cache that is not there.
pub open spec fn is_enrichment(
    r: Enrichment,
    ant: AntConfig,
    usage: Option<UsageCache>,
    models: Option<&ModelsCache>,
    now: Timestamp,
) -> bool {
    if ant.enabled {
        &&& r.usage == usage
        &&& describes_age(r.usage_age, usage_time(usage), now, ant.usage_stale_after@)
        &&& describes_age(r.models_age, models_time(models), now, ant.models_stale_after@)
    } else {
        r.is_empty()
    }
}

/// What the enrichment has to show: nothing unless it is on, and nothing of a cache that is
/// not there.
pub fn enrichment(
    ant: &AntConfig,
    usage: Option<UsageCache>,
    models: Option<&ModelsCache>,
    now: Timestamp,
) -> (r: Enrichment)
    requires
        usage matches Some(u) ==> i64::MIN <= seconds_between(u.fetched_at, now) <= i64::MAX,
        models matches Some(m) ==> i64::MIN <= seconds_between(m.fetched_at, now) <= i64::MAX,
    ensures
        is_enrichment(r, *ant, usage, models, now),
{
    if !ant.enabled {
        return Enrichment::none();
    }
    let usage_age = match &usage {
        Some(u) => {
            let s: i64 = u.age(now);
            let stale = is_stale(s, ant.usage_stale_after.as_str());
            Some(CacheAge { text: humanize_age(s), stale })
        },
        None => None,
    };
    let models_age = match models {
        Some(m) => {
            let s: i64 = m.age(now);
            let stale = is_stale(s, ant.models_stale_after.as_str());
            Some(CacheAge { text: humanize_age(s), stale })
        },
        None => None,
    };
    Enrichment { usage, usage_age, models_age }
}

// ---------------------------------------------------------------------------
// Its variables
// ---------------------------------------------------------------------------

/// The tokens of a model, all kinds together.
pub open spec fn all_tokens(t: TokenBreakdown) -> u64 {
    capped(
        (t.uncached_input + t.cache_read_input + t.cache_creation_1h + t.cache_creation_5m
            + t.output) as nat,
    )
}

/// Each model with its tokens.
pub open spec fn spent(names: Seq<Seq<char>>, tokens: Map<Seq<char>, TokenBreakdown>) -> Seq<
    Seq<char>,
> {
    Seq::new(
        names.len(),
        |i: int| names[i] + ":"@ + short_count(all_tokens(tokens[names[i]]) as nat),
    )
}

fn spent_text(tokens: &TextMap<TokenBreakdown>) -> (r: String)
    ensures
        r@ == joined(spent(in_order(tokens.names()), tokens@), " "@),
{
    let names = tokens.ordered_names();
    let n: usize = names.len();
    let ghost all = in_order(tokens.names());
    let mut out: Vec<String> = Vec::new();
    let mut i: usize = 0;
    while i < n
        invariant
            n == names@.len(),
            all == views(names@),
            i <= n,
            out@.len() == i,
            forall|j: int| 0 <= j < n ==> tokens@.dom().contains((#[trigger] names@[j])@),
            forall|j: int| 0 <= j < i ==> (#[trigger] out@[j])@ == spent(all, tokens@)[j],
        decreases n - i,
    {
        let name = names[i].as_str();
        let count: u64 = match tokens.get(name) {
            Some(t) => t.total(),
            None => 0,
        };
        proof {
            assert(all[i as int] == names@[i as int]@);
            assert(tokens@.dom().contains(names@[i as int]@));
        }
        out.push(concat3(name, ":", short_tokens(count).as_str()));
        i += 1;
    }
    proof {
        assert(views(out@) =~= spent(all, tokens@));
    }
    join(&out, " ")
}

/// The variables of the account's usage and cost; none without them.
pub open spec fn usage_variables(
    m: Map<Seq<char>, Seq<char>>,
    usage: Option<UsageCache>,
    color: Seq<char>,
    reset: Seq<char>,
) -> Map<Seq<char>, Seq<char>> {
    match usage {
        Some(u) => {
            let a = m.insert("api_cost_today"@, painted(color, "$"@ + u.today_usd.digits(2), reset));
            let b = a.insert("api_cost_mtd"@, painted(color, "$"@ + u.mtd_usd.digits(2), reset));
            let c = set_painted(
                b,
                "api_tokens_by_model"@,
                color,
                joined(spent(in_order(u.tokens_by_model.names()), u.tokens_by_model@), " "@),
                reset,
            );
            let d = set_painted(c, "api_account"@, color, u.account@, reset);
            set_painted(d, "api_tz"@, color, u.tz@, reset)
        },
        None => m,
    }
}

/// The age of a cache, as a template shows it.
pub open spec fn age_words(age: Option<Seq<char>>, stale: bool) -> Option<Seq<char>> {
    match age {
        Some(t) => Some(if stale {
            t + " (stale)"@
        } else {
            t
        }),
        None => None,
    }
}

/// The variables of the caches' ages; none of a cache that is not there.
pub open spec fn age_variables(
    m: Map<Seq<char>, Seq<char>>,
    usage_age: Option<Seq<char>>,
    usage_stale: bool,
    models_age: Option<Seq<char>>,
    models_stale: bool,
    color: Seq<char>,
    reset: Seq<char>,
) -> Map<Seq<char>, Seq<char>> {
    let a = set_opt(
        m,
        "api_usage_age"@,
        painted_opt(color, age_words(usage_age, usage_stale), reset),
    );
    set_opt(
        a,
        "api_models_age"@,
        painted_opt(color, age_words(models_age, models_stale), reset),
    )
}

impl VariableBuilder {
    /// `{api_cost_today}`, `{api_cost_mtd}`, `{api_tokens_by_model}`, `{api_account}` and
    /// `{api_tz}`, where the account's usage is known.
    pub fn api_usage(self, usage: Option<&UsageCache>, color: &str, reset: &str) -> (r: Self)
        ensures
            r@ == usage_variables(
                self@,
                match usage {
                    Some(u) => Some(*u),
                    None => None,
                },
                color@,
                reset@,
            ),
    {
        let mut b = self;
        match usage {
            Some(u) => {
                let today = concat2("$", u.today_usd.text(2).as_str());
                b.put("api_cost_today", paint(color, today.as_str(), reset));
                let month = concat2("$", u.mtd_usd.text(2).as_str());
                b.put("api_cost_mtd", paint(color, month.as_str(), reset));
                let tokens = spent_text(&u.tokens_by_model);
                b.put_painted("api_tokens_by_model", color, tokens.as_str(), reset);
                b.put_painted("api_account", color, u.account.as_str(), reset);
                b.put_painted("api_tz", color, u.tz.as_str(), reset);
            },
            None => {},
        }
        b
    }

    /// `{api_usage_age}` and `{api_models_age}`, each where its cache is there.
    pub fn api_age(
        self,
        usage_age: Option<&str>,
        usage_stale: bool,
        models_age: Option<&str>,
        models_stale: bool,
        color: &str,
        reset: &str,
    ) -> (r: Self)
        ensures
            r@ == age_variables(
                self@,
                opt_str(usage_age),
                usage_stale,
                opt_str(models_age),
                models_stale,
                color@,
                reset@,
            ),
    {
        let mut b = self;
        match usage_age {
            Some(t) => b.put("api_usage_age", age_text_in(color, t, usage_stale, reset)),
            None => {},
        }
        match models_age {
            Some(t) => b.put("api_models_age", age_text_in(color, t, models_stale, reset)),
            None => {},
        }
        b
    }
}

fn age_text_in(color: &str, age: &str, stale: bool, reset: &str) -> (r: String)
    ensures
        r@ == painted(
            color@,
            if stale {
                age@ + " (stale)"@
            } else {
                age@
            },
            reset@,
        ),
{
    if stale {
        paint(color, concat2(age, " (stale)").as_str(), reset)
    } else {
        paint(color, age, reset)
    }
}

/// All variables of the enrichment.
pub open spec fn api_variables(
    m: Map<Seq<char>, Seq<char>>,
    api: Enrichment,
    color: Seq<char>,
    reset: Seq<char>,
) -> Map<Seq<char>, Seq<char>> {
    age_variables(
        usage_variables(m, api.usage, color, reset),
        words(api.usage_age),
        is_marked_stale(api.usage_age),
        words(api.models_age),
        is_marked_stale(api.models_age),
        color,
        reset,
    )
}

pub open spec fn words(a: Option<CacheAge>) -> Option<Seq<char>> {
    match a {
        Some(x) => Some(x.text@),
        None => None,
    }
}

pub open spec fn is_marked_stale(a: Option<CacheAge>) -> bool {
    a is Some && a->Some_0.stale
}

fn words_of(a: &Option<CacheAge>) -> (r: (Option<&str>, bool))
    ensures
        opt_str(r.0) == words(*a),
        r.1 == is_marked_stale(*a),
{
    match a {
        Some(x) => (Some(x.text.as_str()), x.stale),
        None => (None, false),
    }
}

/// Add all variables of the enrichment.
pub fn add_enrichment(builder: VariableBuilder, api: &Enrichment, color: &str, reset: &str) -> (r:
    VariableBuilder)
    ensures
        r@ == api_variables(builder@, *api, color@, reset@),
{
    let usage = match &api.usage {
        Some(u) => Some(u),
        None => None,
    };
    let (usage_age, usage_stale) = words_of(&api.usage_age);
    let (models_age, models_stale) = words_of(&api.models_age);
    builder.api_usage(usage, color, reset).api_age(
        usage_age,
        usage_stale,
        models_age,
        models_stale,
        color,
        reset,
    )
}

// ---------------------------------------------------------------------------
// What it leaves alone
// ---------------------------------------------------------------------------

/// A name that the enrichment uses for a variable.
pub open spec fn is_api_name(k: Seq<char>) -> bool {
    k == "api_cost_today"@ || k == "api_cost_mtd"@ || k == "api_tokens_by_model"@ || k
        == "api_account"@ || k == "api_tz"@ || k == "api_usage_age"@ || k == "api_models_age"@
}

/// The enrichment sets no variable but its own.
pub proof fn enrichment_keeps_to_its_own(
    m: Map<Seq<char>, Seq<char>>,
    api: Enrichment,
    color: Seq<char>,
    reset: Seq<char>,
    k: Seq<char>,
)
    requires
        !is_api_name(k),
    ensures
        api_variables(m, api, color, reset).dom().contains(k) == m.dom().contains(k),
        m.dom().contains(k) ==> api_variables(m, api, color, reset)[k] == m[k],
{
}

} // verus!
