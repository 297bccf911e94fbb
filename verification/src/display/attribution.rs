//! Variables of who used the tokens: the session's agents, and the cache of its prompts.

use crate::agents::{share_fraction, short_count, short_tokens, AgentsSummary};
use crate::display::pieces::{
    agents_piece, format_agents, format_prompt_cache, prompt_cache_piece, PromptCache,
};
use crate::layout::format::{paint, painted};
use crate::layout::session::painted_opt;
use crate::layout::variables::{set_opt, set_painted, VariableBuilder};
use crate::ratio::fraction_digits;
use crate::text::{concat2, concat3, dec, in_order, join, joined, u64_text, views};
use crate::text_map::TextMap;
use vstd::prelude::*;

verus! {

/// Each name with its count.
pub open spec fn counted(names: Seq<Seq<char>>, counts: Map<Seq<char>, u32>) -> Seq<Seq<char>> {
    Seq::new(names.len(), |i: int| names[i] + ":"@ + dec(counts[names[i]] as nat))
}

/// The kinds of agents, each with how many there are, in the order of their names.
fn counted_text(counts: &TextMap<u32>) -> (r: String)
    ensures
        r@ == joined(counted(in_order(counts.names()), counts@), " "@),
{
    let names = counts.ordered_names();
    let n: usize = names.len();
    let ghost all = in_order(counts.names());
    let mut out: Vec<String> = Vec::new();
    let mut i: usize = 0;
    while i < n
        invariant
            n == names@.len(),
            all == views(names@),
            i <= n,
            out@.len() == i,
            forall|j: int| 0 <= j < n ==> counts@.dom().contains((#[trigger] names@[j])@),
            forall|j: int| 0 <= j < i ==> (#[trigger] out@[j])@ == counted(all, counts@)[j],
        decreases n - i,
    {
        let name = names[i].as_str();
        let count: u32 = match counts.get(name) {
            Some(c) => *c,
            None => 0,
        };
        proof {
            assert(all[i as int] == names@[i as int]@);
            assert(counts@.dom().contains(names@[i as int]@));
        }
        out.push(concat3(name, ":", u64_text(count as u64).as_str()));
        i += 1;
    }
    proof {
        assert(views(out@) =~= counted(all, counts@));
    }
    join(&out, " ")
}

/// The agents' share of the session's input in percent, where anything has been sent.
pub open spec fn agents_share(s: AgentsSummary) -> Option<Seq<char>> {
    let total = s.main.traffic() + s.agents.traffic();
    if total == 0 {
        None
    } else {
        Some(fraction_digits(share_fraction(s.agents.traffic(), total), 0) + "%"@)
    }
}

/// The variables of the session's agents; none in a session without agents.
pub open spec fn agents_variables(
    m: Map<Seq<char>, Seq<char>>,
    s: AgentsSummary,
    color: Seq<char>,
    reset: Seq<char>,
) -> Map<Seq<char>, Seq<char>> {
    if s.agent_files == 0 {
        m
    } else {
        let a = set_opt(m, "agents"@, painted_opt(color, agents_piece(s), reset));
        let b = a.insert("agents_count"@, painted(color, dec(s.agent_files as nat), reset));
        let c = set_opt(b, "agents_pct"@, painted_opt(color, agents_share(s), reset));
        let d = c.insert(
            "agents_tokens"@,
            painted(color, short_count(s.agents.traffic()), reset),
        );
        set_painted(
            d,
            "agents_types"@,
            color,
            joined(counted(in_order(s.agent_types.names()), s.agent_types@), " "@),
            reset,
        )
    }
}

/// How much of the prompts came from the cache, in percent.
pub open spec fn hit_share(pc: PromptCache) -> Option<Seq<char>> {
    match pc.hit_ratio {
        Some(r) => Some(r.times(100).digits(0) + "%"@),
        None => None,
    }
}

/// The first cause that is given for the latest miss.
pub open spec fn miss_cause(pc: PromptCache) -> Option<Seq<char>> {
    if pc.last_miss_causes@.len() > 0 {
        Some(pc.last_miss_causes@[0]@)
    } else {
        None
    }
}

/// The variables of the cache of the session's prompts, each where it is known.
pub open spec fn prompt_cache_variables(
    m: Map<Seq<char>, Seq<char>>,
    pc: PromptCache,
    color: Seq<char>,
    reset: Seq<char>,
) -> Map<Seq<char>, Seq<char>> {
    let a = set_opt(m, "prompt_cache"@, painted_opt(color, prompt_cache_piece(pc), reset));
    let b = set_opt(a, "cache_hit"@, painted_opt(color, hit_share(pc), reset));
    let c = match pc.misses {
        Some(n) => b.insert("cache_misses"@, painted(color, dec(n as nat), reset)),
        None => b,
    };
    set_opt(c, "cache_miss_cause"@, painted_opt(color, miss_cause(pc), reset))
}

impl VariableBuilder {
    /// `{agents}`, `{agents_count}`, `{agents_pct}`, `{agents_tokens}` and `{agents_types}`,
    /// in a session that has agents.
    pub fn agents(self, summary: &AgentsSummary, color: &str, reset: &str) -> (r: Self)
        requires
            summary.main.traffic() + summary.agents.traffic() <= u64::MAX,
        ensures
            r@ == agents_variables(self@, *summary, color@, reset@),
    {
        if !summary.has_agents() {
            return self;
        }
        let mut b = self;
        match format_agents(summary) {
            Some(t) => b.put("agents", paint(color, t.as_str(), reset)),
            None => {},
        }
        let count = u64_text(summary.agent_files as u64);
        b.put("agents_count", paint(color, count.as_str(), reset));
        match summary.agent_share_percent(0) {
            Some(p) => b.put("agents_pct", paint(color, concat2(p.as_str(), "%").as_str(), reset)),
            None => {},
        }
        let tokens = short_tokens(summary.agents.input_traffic());
        b.put("agents_tokens", paint(color, tokens.as_str(), reset));
        b.put_painted("agents_types", color, counted_text(&summary.agent_types).as_str(), reset);
        b
    }

    /// `{prompt_cache}`, `{cache_hit}`, `{cache_misses}` and `{cache_miss_cause}`, each
    /// where it is known.
    pub fn prompt_cache(self, pc: &PromptCache, color: &str, reset: &str) -> (r: Self)
        ensures
            r@ == prompt_cache_variables(self@, *pc, color@, reset@),
    {
        let mut b = self;
        match format_prompt_cache(pc) {
            Some(t) => b.put("prompt_cache", paint(color, t.as_str(), reset)),
            None => {},
        }
        match pc.hit_ratio {
            Some(ratio) => {
                let t = concat2(ratio.product(100).text(0).as_str(), "%");
                b.put("cache_hit", paint(color, t.as_str(), reset));
            },
            None => {},
        }
        match pc.misses {
            Some(n) => b.put("cache_misses", paint(color, u64_text(n).as_str(), reset)),
            None => {},
        }
        if pc.last_miss_causes.len() > 0 {
            b.put("cache_miss_cause", paint(color, pc.last_miss_causes[0].as_str(), reset));
        }
        b
    }
}

} // verus!
