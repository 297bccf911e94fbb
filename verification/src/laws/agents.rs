//! What reading a transcript counts.

use crate::agents::{
    absorbed, agent_type_key, assistant_bytes, complete_part, consumed, consumed_all, line_end,
    lines_from, response_lines, resume, share_fraction, type_count, type_label, AgentsSummary,
    Progress, Step, TranscriptEntry, TranscriptTotals, Usage,
};
use crate::ratio::fraction_digits;
use crate::text::opt_view;
use vstd::prelude::*;

verus! {

/// A count that may be absent.
pub open spec fn given(n: Option<u32>) -> int {
    match n {
        Some(v) => v as int,
        None => 0,
    }
}

/// Whether a line tells of a response that the one before it did not tell of.
pub open spec fn is_new_response(p: Progress, e: TranscriptEntry) -> bool {
    &&& e.role@ == "assistant"@
    &&& e.request_id matches Some(id) ==> opt_view(p.last_request_id) != Some(id@)
}

/// A response that was not seen before counts once, and each kind of token by exactly what
/// its line says of that kind; a kind that the line does not mention stays as it is.
pub proof fn each_kind_grows_by_its_own_count(p: Progress, e: TranscriptEntry, u: Usage)
    requires
        is_new_response(p, e),
        e.usage == Some(u),
        p.totals.requests < u64::MAX,
        p.totals.input_tokens + given(u.input_tokens) <= u64::MAX,
        p.totals.output_tokens + given(u.output_tokens) <= u64::MAX,
        p.totals.cache_read_tokens + given(u.cache_read_input_tokens) <= u64::MAX,
        p.totals.cache_creation_tokens + given(u.cache_creation_input_tokens) <= u64::MAX,
    ensures
        ({
            let old = p.totals;
            let new = consumed(p, Some(e)).totals;
            &&& new.requests - old.requests == 1
            &&& new.input_tokens - old.input_tokens == given(u.input_tokens)
            &&& new.output_tokens - old.output_tokens == given(u.output_tokens)
            &&& new.cache_read_tokens - old.cache_read_tokens == given(u.cache_read_input_tokens)
            &&& new.cache_creation_tokens - old.cache_creation_tokens == given(
                u.cache_creation_input_tokens,
            )
        }),
{
}

/// A line that is no response, or that tells of the last response again, changes nothing;
/// nor does a line that could not be read.
pub proof fn other_lines_count_for_nothing(p: Progress, e: TranscriptEntry)
    requires
        !is_new_response(p, e),
    ensures
        consumed(p, Some(e)) == p,
        consumed(p, None) == p,
{
}

/// A response without counts adds to no total.
pub proof fn responses_without_counts_add_nothing(p: Progress, e: TranscriptEntry)
    requires
        e.usage is None,
    ensures
        consumed(p, Some(e)).totals == p.totals,
{
}

/// The response that was seen last is the one whose line was read last, of those lines
/// that name one; reading a line changes neither what is known of the file nor of the agent.
pub proof fn last_response_is_remembered(p: Progress, e: TranscriptEntry)
    ensures
        ({
            let q = consumed(p, Some(e));
            &&& e.role@ == "assistant"@ && e.request_id is Some ==> opt_view(q.last_request_id)
                == opt_view(e.request_id)
            &&& e.role@ != "assistant"@ || e.request_id is None ==> q.last_request_id
                == p.last_request_id
            &&& q.size == p.size
            &&& q.mtime == p.mtime
            &&& q.offset == p.offset
            &&& q.agent_type == p.agent_type
        }),
{
}

/// Two transcripts that tell of one response each, under different ids, count together
/// what each of them counts alone, whichever is read first.
pub proof fn order_of_responses_does_not_matter(p: Progress, a: TranscriptEntry, b: TranscriptEntry)
    requires
        p.last_request_id is None,
        a.role@ == "assistant"@,
        b.role@ == "assistant"@,
        a.request_id is Some,
        b.request_id is Some,
        opt_view(a.request_id) != opt_view(b.request_id),
        p.totals.room_for(2),
    ensures
        consumed_all(p, seq![Some(a), Some(b)]).totals == consumed_all(
            p,
            seq![Some(b), Some(a)],
        ).totals,
{
    reveal_with_fuel(consumed_all, 3);
    let ab = seq![Some(a), Some(b)];
    let ba = seq![Some(b), Some(a)];
    assert(ab.drop_last() =~= seq![Some(a)]);
    assert(ba.drop_last() =~= seq![Some(b)]);
    assert(seq![Some(a)].drop_last() =~= Seq::empty());
    assert(seq![Some(b)].drop_last() =~= Seq::empty());
}

/// What was read of a file is remembered under the file's size and time; the totals are
/// those of its lines alone, and the agent stays of its type.
pub proof fn reading_leaves_a_mark(
    p: Progress,
    buf: Seq<u8>,
    entries: Seq<Option<TranscriptEntry>>,
    size: u64,
    mtime: i64,
)
    requires
        p.offset + buf.len() <= u64::MAX,
    ensures
        ({
            let q = absorbed(p, buf, entries, size, mtime);
            let all = consumed_all(p, entries);
            &&& q.size == size
            &&& q.mtime == mtime
            &&& q.totals == all.totals
            &&& q.last_request_id == all.last_request_id
            &&& q.agent_type == p.agent_type
            &&& p.offset <= q.offset <= p.offset + buf.len()
            &&& buf.len() > 0 && buf.last() == 10 ==> q.offset == p.offset + buf.len()
        }),
    decreases entries.len(),
{
    lemma_agent_stays(p, entries);
    lemma_whole_lines(buf);
}

proof fn lemma_agent_stays(p: Progress, entries: Seq<Option<TranscriptEntry>>)
    ensures
        consumed_all(p, entries).agent_type == p.agent_type,
    decreases entries.len(),
{
    if entries.len() > 0 {
        lemma_agent_stays(p, entries.drop_last());
    }
}

proof fn lemma_whole_lines(buf: Seq<u8>)
    ensures
        0 <= complete_part(buf) <= buf.len(),
    decreases buf.len(),
{
    if buf.len() > 0 {
        lemma_whole_lines(buf.drop_last());
    }
}

/// The whole lines of a file end with its last line end: nothing but an unfinished line
/// follows them.
pub proof fn whole_lines_end_with_a_line_end(buf: Seq<u8>, i: int)
    ensures
        ({
            let n = complete_part(buf);
            &&& n > 0 ==> n <= buf.len() && buf[n - 1] == 10
            &&& n <= i < buf.len() ==> buf[i] != 10
        }),
    decreases buf.len(),
{
    if buf.len() > 0 && buf.last() != 10 {
        whole_lines_end_with_a_line_end(buf.drop_last(), i);
        lemma_whole_lines(buf.drop_last());
    }
}

/// What a model was given is what was fresh, what was read from the cache and what was
/// written to it; what it answered is no part of that.
pub proof fn traffic_is_what_the_model_was_given(t: TranscriptTotals, other: TranscriptTotals)
    ensures
        t.traffic() == t.input_tokens + t.cache_read_tokens + t.cache_creation_tokens,
        t.input_tokens == other.input_tokens && t.cache_read_tokens == other.cache_read_tokens
            && t.cache_creation_tokens == other.cache_creation_tokens ==> t.traffic()
            == other.traffic(),
{
}

/// A file that is as it was is not read again; one that has become shorter than what was
/// read of it is read from its beginning; any other is read on from where it was left.
pub proof fn files_are_read_on(p: Progress, size: u64, mtime: i64, r: Step, fresh: Step)
    requires
        call_ensures(resume, (Some(p), size, mtime), r),
        call_ensures(resume, (None::<Progress>, size, mtime), fresh),
    ensures
        p.size == size && p.mtime == mtime ==> r == Step::Unchanged(p),
        !(p.size == size && p.mtime == mtime) && p.offset <= size ==> r == Step::Read(p),
        !(p.size == size && p.mtime == mtime) && size < p.offset ==> (r matches Step::Read(q)
            && q.offset == 0 && q.totals.requests == 0 && q.totals.input_tokens == 0
            && q.totals.output_tokens == 0 && q.totals.cache_read_tokens == 0
            && q.totals.cache_creation_tokens == 0 && q.last_request_id is None),
        fresh matches Step::Read(q) && q.offset == 0 && q.totals.requests == 0
            && q.totals.input_tokens == 0 && q.totals.output_tokens == 0
            && q.totals.cache_read_tokens == 0 && q.totals.cache_creation_tokens == 0
            && q.last_request_id is None,
{
}

/// Totals are added kind by kind.
pub proof fn totals_are_added_by_kind(a: TranscriptTotals, b: TranscriptTotals)
    requires
        a.requests + b.requests <= u64::MAX,
        a.input_tokens + b.input_tokens <= u64::MAX,
        a.cache_read_tokens + b.cache_read_tokens <= u64::MAX,
        a.cache_creation_tokens + b.cache_creation_tokens <= u64::MAX,
        a.output_tokens + b.output_tokens <= u64::MAX,
    ensures
        ({
            let t = a.plus(b);
            &&& t.requests == a.requests + b.requests
            &&& t.input_tokens == a.input_tokens + b.input_tokens
            &&& t.cache_read_tokens == a.cache_read_tokens + b.cache_read_tokens
            &&& t.cache_creation_tokens == a.cache_creation_tokens + b.cache_creation_tokens
            &&& t.output_tokens == a.output_tokens + b.output_tokens
        }),
{
}

/// The main conversation alone has no agents.
pub proof fn the_main_conversation_alone(main: TranscriptTotals, r: AgentsSummary)
    requires
        call_ensures(AgentsSummary::of_main, (main,), r),
    ensures
        r.main == main,
        r.agents.requests == 0 && r.agents.input_tokens == 0 && r.agents.output_tokens == 0,
        r.agents.cache_read_tokens == 0 && r.agents.cache_creation_tokens == 0,
        r.agent_files == 0,
        r.agent_types@.dom() == Set::<Seq<char>>::empty(),
{
}

/// Agents are counted by their type, and those without one as unknown.
pub proof fn agents_are_counted_by_type(t: Seq<char>, types: Map<Seq<char>, u32>)
    ensures
        type_label(Some(t)) == t,
        type_label(None) == "unknown"@,
        types.dom().contains(t) ==> type_count(types, t) == types[t],
        !types.dom().contains(t) ==> type_count(types, t) == 0,
{
}

/// The word that tells a response.
pub proof fn responses_are_told_by_a_word(i: int)
    requires
        0 <= i < 9,
    ensures
        assistant_bytes().len() == "assistant"@.len(),
        assistant_bytes()[i] as int == "assistant"@[i] as int,
{
    reveal_strlit("assistant");
}

/// Of a file's lines, those that hold the word that tells a response are read, in order;
/// the others are passed over.
pub proof fn lines_with_the_word_are_read(line: Seq<u8>, i: int)
    requires
        forall|k: int| 0 <= k < line.len() ==> line[k] != 10,
    ensures
        ({
            let word = assistant_bytes();
            let lines = response_lines(line + seq![10u8]);
            &&& 0 <= i && i + 9 <= line.len() && line.subrange(i, i + 9) == word ==> lines == seq![
                line,
            ]
            &&& lines.len() == 0 || lines == seq![line]
            &&& (forall|k: int|
                0 <= k && k + 9 <= line.len() ==> #[trigger] line.subrange(k, k + 9) != word)
                ==> lines.len() == 0
        }),
{
    let buf = line + seq![10u8];
    assert(buf.last() == 10);
    assert(complete_part(buf) == buf.len());
    lemma_line_end(buf, 0, buf.len() as int, line.len() as int);
    assert(buf.subrange(0, line.len() as int) =~= line);
    reveal_with_fuel(lines_from, 2);
    let rest = lines_from(buf, line.len() as int + 1, buf.len() as int);
    assert(rest.len() == 0);
    assert(seq![line] + rest =~= seq![line]);
}

proof fn lemma_line_end(buf: Seq<u8>, i: int, end: int, e: int)
    requires
        0 <= i <= e < end <= buf.len(),
        buf[e] == 10,
        forall|k: int| i <= k < e ==> buf[k] != 10,
    ensures
        line_end(buf, i, end) == e,
    decreases e - i,
{
    if i < e {
        lemma_line_end(buf, i + 1, end, e);
    }
}

/// What an agent is goes by its own word in the file's metadata.
pub proof fn agents_are_told_by_their_word()
    ensures
        agent_type_key() == "agentType"@,
{
}

/// The share is the agents' part of all traffic: none where there is no traffic, and
/// otherwise what they were given against what all were given.
pub proof fn the_share_is_the_agents(s: &AgentsSummary, places: u32, r: Option<String>)
    requires
        call_ensures(AgentsSummary::agent_share_percent, (s, places), r),
        places <= 2,
    ensures
        s.main.traffic() + s.agents.traffic() == 0 <==> r is None,
        r matches Some(t) ==> t@ == fraction_digits(
            share_fraction(s.agents.traffic(), s.main.traffic() + s.agents.traffic()),
            places as nat,
        ),
{
}

} // verus!
