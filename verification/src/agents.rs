//! Token attribution between a session's main conversation and its agents.
//!
//! Every transcript is a file of JSON lines that only grows. The state kept for a
//! file says how far it has been read and what the lines so far add up to, so each
//! look at a file reads only what was appended. One response spans several lines
//! that share a request id and repeat the same usage; it counts once.

use crate::paths::{join_path, parent, parent_of, path_below};
use crate::ratio::{
    fraction_digits, fraction_text, nearest, nearest_double, nearest_whole, quotient_digits,
    quotient_text, whole_double, Binary,
};
use crate::text::{concat2, dec, opt_view, same, u64_text};
use crate::text_map::TextMap;
use vstd::prelude::*;

verus! {

/// Token totals over one or more transcripts, each request counted once.
#[derive(Debug, Clone, Copy, PartialEq, Eq, Structural)]
pub struct TranscriptTotals {
    pub requests: u64,
    pub input_tokens: u64,
    pub cache_read_tokens: u64,
    pub cache_creation_tokens: u64,
    pub output_tokens: u64,
}

impl Default for TranscriptTotals {
    fn default() -> (r: Self)
        ensures
            r == no_totals(),
    {
        TranscriptTotals {
            requests: 0,
            input_tokens: 0,
            cache_read_tokens: 0,
            cache_creation_tokens: 0,
            output_tokens: 0,
        }
    }
}

/// Totals over no transcript.
pub open spec fn no_totals() -> TranscriptTotals {
    TranscriptTotals {
        requests: 0,
        input_tokens: 0,
        cache_read_tokens: 0,
        cache_creation_tokens: 0,
        output_tokens: 0,
    }
}

impl TranscriptTotals {
    /// Everything sent to the model: fresh input, cache reads and cache writes.
    pub open spec fn traffic(self) -> nat {
        (self.input_tokens + self.cache_read_tokens + self.cache_creation_tokens) as nat
    }

    /// Everything sent to the model: fresh input, cache reads and cache writes.
    pub fn input_traffic(&self) -> (r: u64)
        requires
            self.traffic() <= u64::MAX,
        ensures
            r == self.traffic(),
    {
        self.input_tokens + self.cache_read_tokens + self.cache_creation_tokens
    }

    /// Whether two totals can be added up.
    pub open spec fn fits_with(self, other: TranscriptTotals) -> bool {
        &&& self.requests + other.requests <= u64::MAX
        &&& self.input_tokens + other.input_tokens <= u64::MAX
        &&& self.cache_read_tokens + other.cache_read_tokens <= u64::MAX
        &&& self.cache_creation_tokens + other.cache_creation_tokens <= u64::MAX
        &&& self.output_tokens + other.output_tokens <= u64::MAX
    }

    /// The sum of two totals.
    pub open spec fn plus(self, other: TranscriptTotals) -> TranscriptTotals {
        TranscriptTotals {
            requests: (self.requests + other.requests) as u64,
            input_tokens: (self.input_tokens + other.input_tokens) as u64,
            cache_read_tokens: (self.cache_read_tokens + other.cache_read_tokens) as u64,
            cache_creation_tokens: (self.cache_creation_tokens + other.cache_creation_tokens) as u64,
            output_tokens: (self.output_tokens + other.output_tokens) as u64,
        }
    }

    pub fn add(&mut self, other: &TranscriptTotals)
        requires
            old(self).fits_with(*other),
        ensures
            *final(self) == old(self).plus(*other),
    {
        self.requests += other.requests;
        self.input_tokens += other.input_tokens;
        self.cache_read_tokens += other.cache_read_tokens;
        self.cache_creation_tokens += other.cache_creation_tokens;
        self.output_tokens += other.output_tokens;
    }

    /// No field has fallen.
    pub open spec fn at_least(self, other: TranscriptTotals) -> bool {
        &&& self.requests >= other.requests
        &&& self.input_tokens >= other.input_tokens
        &&& self.cache_read_tokens >= other.cache_read_tokens
        &&& self.cache_creation_tokens >= other.cache_creation_tokens
        &&& self.output_tokens >= other.output_tokens
    }

    /// Room for `n` more requests in every field.
    pub open spec fn room_for(self, n: nat) -> bool {
        &&& self.requests + n * u32::MAX <= u64::MAX
        &&& self.input_tokens + n * u32::MAX <= u64::MAX
        &&& self.cache_read_tokens + n * u32::MAX <= u64::MAX
        &&& self.cache_creation_tokens + n * u32::MAX <= u64::MAX
        &&& self.output_tokens + n * u32::MAX <= u64::MAX
    }
}

/// Main-versus-agents attribution for one session.
#[derive(Debug)]
pub struct AgentsSummary {
    pub main: TranscriptTotals,
    pub agents: TranscriptTotals,
    /// Number of agent transcripts, one per spawned agent.
    pub agent_files: u32,
    /// How many agents of each type were spawned.
    pub agent_types: TextMap<u32>,
}

/// The name under which an agent of unstated type is counted.
pub open spec fn type_label(agent_type: Option<Seq<char>>) -> Seq<char> {
    match agent_type {
        Some(t) => t,
        None => "unknown"@,
    }
}

/// How many agents of a type a map counts.
pub open spec fn type_count(types: Map<Seq<char>, u32>, label: Seq<char>) -> nat {
    if types.dom().contains(label) {
        types[label] as nat
    } else {
        0
    }
}

/// The fraction that the agents' traffic is of a total, in percent, each step rounded
/// to a double.
pub open spec fn share_fraction(agents: nat, total: nat) -> Binary {
    nearest(nearest_whole(nearest_whole(agents) * 100), nearest_whole(total))
}

impl AgentsSummary {
    /// The main conversation alone.
    pub fn of_main(main: TranscriptTotals) -> (r: AgentsSummary)
        ensures
            r.main == main,
            r.agents == no_totals(),
            r.agent_files == 0,
            r.agent_types@ == Map::<Seq<char>, u32>::empty(),
    {
        AgentsSummary {
            main,
            agents: TranscriptTotals::default(),
            agent_files: 0,
            agent_types: TextMap::new(),
        }
    }

    /// Count one agent transcript.
    pub fn record_agent(&mut self, totals: &TranscriptTotals, agent_type: Option<String>)
        requires
            old(self).agents.fits_with(*totals),
            old(self).agent_files < u32::MAX,
            type_count(old(self).agent_types@, type_label(opt_view(agent_type))) < u32::MAX,
        ensures
            final(self).main == old(self).main,
            final(self).agents == old(self).agents.plus(*totals),
            final(self).agent_files == old(self).agent_files + 1,
            final(self).agent_types@ == old(self).agent_types@.insert(
                type_label(opt_view(agent_type)),
                (type_count(old(self).agent_types@, type_label(opt_view(agent_type))) + 1) as u32,
            ),
    {
        self.agents.add(totals);
        self.agent_files += 1;
        let label = match agent_type {
            Some(t) => t,
            None => "unknown".to_owned(),
        };
        let n: u32 = match self.agent_types.get(label.as_str()) {
            Some(c) => *c,
            None => 0,
        };
        self.agent_types.insert(label, n + 1);
    }

    pub fn has_agents(&self) -> (r: bool)
        ensures
            r == (self.agent_files > 0),
    {
        self.agent_files > 0
    }

    /// The agents' share of the session's input traffic in percent, with a fixed number
    /// of decimals. Nothing when nothing has been sent yet.
    pub fn agent_share_percent(&self, places: u32) -> (r: Option<String>)
        requires
            self.main.traffic() + self.agents.traffic() <= u64::MAX,
            places <= 2,
        ensures
            r is None <==> self.main.traffic() + self.agents.traffic() == 0,
            r matches Some(s) ==> s@ == fraction_digits(
                share_fraction(
                    self.agents.traffic(),
                    self.main.traffic() + self.agents.traffic(),
                ),
                places as nat,
            ),
    {
        let total: u64 = self.main.input_traffic() + self.agents.input_traffic();
        if total == 0 {
            return None;
        }
        let part: u128 = whole_double(self.agents.input_traffic() as u128);
        let hundred: u128 = whole_double(part * 100);
        let whole: u128 = whole_double(total as u128);
        let f = nearest_double(hundred, whole);
        Some(fraction_text(f, places))
    }
}

/// Where a session's agent transcripts lie, given its main transcript.
pub open spec fn subagents_path(main: Seq<char>, session_id: Seq<char>) -> Option<Seq<char>> {
    match parent_of(main) {
        Some(d) => Some(path_below(path_below(d, session_id), "subagents"@)),
        None => None,
    }
}

/// Directory that holds the session's agent transcripts.
pub fn subagents_dir(main_transcript: &str, session_id: &str) -> (r: Option<String>)
    ensures
        opt_view(r) == subagents_path(main_transcript@, session_id@),
{
    match parent(main_transcript) {
        Some(d) => {
            let s = join_path(d.as_str(), session_id);
            Some(join_path(s.as_str(), "subagents"))
        },
        None => None,
    }
}

// ---------------------------------------------------------------------------
// Reading one transcript
// ---------------------------------------------------------------------------

/// Token counts of one response; absent where the transcript leaves them out.
#[derive(Debug)]
pub struct Usage {
    pub input_tokens: Option<u32>,
    pub output_tokens: Option<u32>,
    pub cache_read_input_tokens: Option<u32>,
    pub cache_creation_input_tokens: Option<u32>,
}

/// What a transcript line says of a message.
#[derive(Debug)]
pub struct TranscriptEntry {
    pub request_id: Option<String>,
    pub role: String,
    pub usage: Option<Usage>,
}

/// How far a transcript has been read, and what the lines so far add up to.
#[derive(Debug)]
pub struct Progress {
    /// Size of the file when it was last read.
    pub size: u64,
    /// Modification time of the file when it was last read.
    pub mtime: i64,
    /// Position after the last complete line that was read.
    pub offset: u64,
    /// Request id of the last response that was seen.
    pub last_request_id: Option<String>,
    pub totals: TranscriptTotals,
    pub agent_type: Option<String>,
}

/// The state of a file that has not been read.
pub open spec fn unread(p: Progress) -> bool {
    &&& p.size == 0
    &&& p.mtime == 0
    &&& p.offset == 0
    &&& p.last_request_id is None
    &&& p.totals == no_totals()
    &&& p.agent_type is None
}

impl Default for Progress {
    fn default() -> (r: Self)
        ensures
            unread(r),
    {
        Progress {
            size: 0,
            mtime: 0,
            offset: 0,
            last_request_id: None,
            totals: TranscriptTotals::default(),
            agent_type: None,
        }
    }
}

/// What to do with a transcript.
#[derive(Debug)]
pub enum Step {
    /// The file is as it was: its totals stand.
    Unchanged(Progress),
    /// Read the file from the state's offset on.
    Read(Progress),
}

/// Decide how to go on with a file of the given size and modification time: nothing to
/// do when both are as stored; start over when the file has become shorter than what
/// was read of it; else read on.
pub fn resume(stored: Option<Progress>, size: u64, mtime: i64) -> (r: Step)
    ensures
        match stored {
            Some(p) => if p.size == size && p.mtime == mtime {
                r == Step::Unchanged(p)
            } else if size < p.offset {
                r matches Step::Read(q) && unread(q)
            } else {
                r == Step::Read(p)
            },
            None => r matches Step::Read(q) && unread(q),
        },
        r matches Step::Read(q) ==> q.offset <= size,
{
    match stored {
        Some(p) => {
            if p.size == size && p.mtime == mtime {
                Step::Unchanged(p)
            } else if size < p.offset {
                Step::Read(Progress::default())
            } else {
                Step::Read(p)
            }
        },
        None => Step::Read(Progress::default()),
    }
}

/// The metadata key that holds an agent's type.
pub open spec fn agent_type_key() -> Seq<char> {
    "agentType"@
}

/// The string that `serde_json` reads under a key of a JSON object.
pub uninterp spec fn json_string_under(text: Seq<char>, key: Seq<char>) -> Option<Seq<char>>;

/// Reads `text` with `serde_json::from_str` as a `Value`, and takes what `Value::get`
/// finds under `key` where `Value::as_str` gives a string. Claims that the outcome depends
/// on the text and the key alone; which texts are JSON is left to that crate.
#[verifier::external_body]
fn string_under(text: &str, key: &str) -> (r: Option<String>)
    ensures
        opt_view(r) == json_string_under(text@, key@),
{
    let v: serde_json::Value = serde_json::from_str(text).ok()?;
    v.get(key)?.as_str().map(|s| s.to_string())
}

/// Fill in the agent type from the text of the file's metadata, where it is not known
/// yet and there is such a text.
pub fn read_agent_type(state: &mut Progress, is_agent: bool, meta: Option<&str>)
    ensures
        final(state).size == old(state).size,
        final(state).mtime == old(state).mtime,
        final(state).offset == old(state).offset,
        final(state).last_request_id == old(state).last_request_id,
        final(state).totals == old(state).totals,
        opt_view(final(state).agent_type) == (if is_agent && old(state).agent_type is None {
            match meta {
                Some(text) => json_string_under(text@, agent_type_key()),
                None => None,
            }
        } else {
            opt_view(old(state).agent_type)
        }),
{
    let found = if is_agent && state.agent_type.is_none() {
        match meta {
            Some(text) => string_under(text, "agentType"),
            None => None,
        }
    } else {
        None
    };
    note_agent_type(state, is_agent, found);
}

/// Record what the metadata says of an agent's type, where it is not known yet.
pub fn note_agent_type(state: &mut Progress, is_agent: bool, found: Option<String>)
    ensures
        final(state).size == old(state).size,
        final(state).mtime == old(state).mtime,
        final(state).offset == old(state).offset,
        final(state).last_request_id == old(state).last_request_id,
        final(state).totals == old(state).totals,
        final(state).agent_type == (if is_agent && old(state).agent_type is None {
            found
        } else {
            old(state).agent_type
        }),
{
    if is_agent && state.agent_type.is_none() {
        state.agent_type = found;
    }
}

/// The length of the part of `buf` that consists of complete lines.
pub open spec fn complete_part(buf: Seq<u8>) -> int
    decreases buf.len(),
{
    if buf.len() == 0 {
        0
    } else if buf.last() == 10 {
        buf.len() as int
    } else {
        complete_part(buf.drop_last())
    }
}

pub fn complete_len(buf: &Vec<u8>) -> (r: usize)
    ensures
        r == complete_part(buf@),
        r <= buf@.len(),
{
    let mut n: usize = buf.len();
    proof {
        assert(buf@.take(buf@.len() as int) =~= buf@);
    }
    while n > 0 && buf[n - 1] != 10
        invariant
            n <= buf@.len(),
            complete_part(buf@) == complete_part(buf@.take(n as int)),
        decreases n,
    {
        proof {
            assert(buf@.take(n as int).drop_last() =~= buf@.take(n - 1));
        }
        n -= 1;
    }
    n
}

/// Whether a line holds the word that every line of a response holds.
pub open spec fn mentions_assistant(line: Seq<u8>) -> bool {
    exists|i: int|
        0 <= i && i + 9 <= line.len() && #[trigger] line.subrange(i, i + 9)
            == assistant_bytes()
}

pub open spec fn assistant_bytes() -> Seq<u8> {
    seq![97u8, 115u8, 115u8, 105u8, 115u8, 116u8, 97u8, 110u8, 116u8]
}

fn assistant_at(line: &Vec<u8>, i: usize) -> (r: bool)
    requires
        i + 9 <= line@.len(),
    ensures
        r == (line@.subrange(i as int, i + 9) == assistant_bytes()),
{
    let n: usize = line.len();
    let r = line[i] == 97 && line[i + 1] == 115 && line[i + 2] == 115 && line[i + 3] == 105
        && line[i + 4] == 115 && line[i + 5] == 116 && line[i + 6] == 97 && line[i + 7] == 110
        && line[i + 8] == 116;
    proof {
        let w = line@.subrange(i as int, i + 9);
        let a = assistant_bytes();
        assert(forall|k: int| 0 <= k < 9 ==> w[k] == line@[i + k]);
        if r {
            assert(w =~= a);
        } else {
            assert(w[0] != a[0] || w[1] != a[1] || w[2] != a[2] || w[3] != a[3] || w[4] != a[4]
                || w[5] != a[5] || w[6] != a[6] || w[7] != a[7] || w[8] != a[8]);
        }
    }
    r
}

/// Whether a line holds the word that every line of a response holds.
pub fn line_mentions_assistant(line: &Vec<u8>) -> (r: bool)
    ensures
        r == mentions_assistant(line@),
{
    if line.len() < 9 {
        return false;
    }
    let last: usize = line.len() - 9;
    let mut i: usize = 0;
    while i <= last
        invariant
            i <= last + 1,
            last + 9 == line@.len(),
            last < usize::MAX,
            forall|k: int|
                0 <= k < i ==> #[trigger] line@.subrange(k, k + 9) != assistant_bytes(),
        decreases last + 1 - i,
    {
        if assistant_at(line, i) {
            return true;
        }
        i += 1;
    }
    false
}

/// The lines of `buf` from position `i` on that are worth parsing: those that end in a
/// line feed before `end` and mention a response.
pub open spec fn lines_from(buf: Seq<u8>, i: int, end: int) -> Seq<Seq<u8>>
    decreases end - i,
{
    if i < 0 || i >= end {
        Seq::empty()
    } else {
        let e = line_end(buf, i, end);
        let line = buf.subrange(i, e);
        let rest = if e < i || e >= end {
            Seq::empty()
        } else {
            lines_from(buf, e + 1, end)
        };
        if mentions_assistant(line) {
            seq![line] + rest
        } else {
            rest
        }
    }
}

/// The first line feed at or after `i`, or `end`.
pub open spec fn line_end(buf: Seq<u8>, i: int, end: int) -> int
    decreases end - i,
{
    if i >= end || buf[i] == 10 {
        i
    } else {
        line_end(buf, i + 1, end)
    }
}

/// The lines of `buf` worth parsing.
pub open spec fn response_lines(buf: Seq<u8>) -> Seq<Seq<u8>> {
    lines_from(buf, 0, complete_part(buf))
}

/// The bytes of each line of a list.
pub open spec fn byte_views(v: Seq<Vec<u8>>) -> Seq<Seq<u8>> {
    Seq::new(v.len(), |i: int| v[i]@)
}

fn bytes_between(buf: &Vec<u8>, from: usize, to: usize) -> (r: Vec<u8>)
    requires
        from <= to <= buf@.len(),
    ensures
        r@ == buf@.subrange(from as int, to as int),
{
    let mut out: Vec<u8> = Vec::new();
    let mut i: usize = from;
    while i < to
        invariant
            from <= i <= to <= buf@.len(),
            out@ == buf@.subrange(from as int, i as int),
        decreases to - i,
    {
        proof {
            assert(buf@.subrange(from as int, i as int).push(buf@[i as int]) =~= buf@.subrange(
                from as int,
                i + 1,
            ));
        }
        out.push(buf[i]);
        i += 1;
    }
    out
}

/// The complete lines of `buf` that are worth parsing. A line still being written is
/// left for the next time.
pub fn lines_to_parse(buf: &Vec<u8>) -> (r: Vec<Vec<u8>>)
    ensures
        byte_views(r@) == response_lines(buf@),
{
    let end: usize = complete_len(buf);
    let mut out: Vec<Vec<u8>> = Vec::new();
    let mut i: usize = 0;
    proof {
        assert(byte_views(out@) + lines_from(buf@, 0, end as int) =~= response_lines(buf@));
    }
    while i < end
        invariant
            i <= end <= buf@.len(),
            byte_views(out@) + lines_from(buf@, i as int, end as int) == response_lines(buf@),
        decreases end - i,
    {
        let mut e: usize = i;
        while e < end && buf[e] != 10
            invariant
                i <= e <= end <= buf@.len(),
                line_end(buf@, i as int, end as int) == line_end(buf@, e as int, end as int),
            decreases end - e,
        {
            e += 1;
        }
        let line = bytes_between(buf, i, e);
        let ghost before = out@;
        let next: usize = if e < end {
            e + 1
        } else {
            end
        };
        if line_mentions_assistant(&line) {
            proof {
                assert(lines_from(buf@, end as int, end as int) =~= Seq::<Seq<u8>>::empty());
                assert(byte_views(before.push(line)) + lines_from(buf@, next as int, end as int)
                    =~= byte_views(before) + (seq![line@] + lines_from(
                    buf@,
                    next as int,
                    end as int,
                )));
            }
            out.push(line);
        }
        i = next;
    }
    proof {
        assert(lines_from(buf@, i as int, end as int) =~= Seq::<Seq<u8>>::empty());
        assert(byte_views(out@) + Seq::<Seq<u8>>::empty() =~= byte_views(out@));
    }
    out
}

pub open spec fn count_or_zero(n: Option<u32>) -> u64 {
    match n {
        Some(v) => v as u64,
        None => 0,
    }
}

fn count_of(n: &Option<u32>) -> (r: u64)
    ensures
        r == count_or_zero(*n),
        r <= u32::MAX,
{
    match n {
        Some(v) => *v as u64,
        None => 0,
    }
}

/// What one response adds to the totals.
pub open spec fn usage_totals(u: Usage) -> TranscriptTotals {
    TranscriptTotals {
        requests: 1,
        input_tokens: count_or_zero(u.input_tokens),
        cache_read_tokens: count_or_zero(u.cache_read_input_tokens),
        cache_creation_tokens: count_or_zero(u.cache_creation_input_tokens),
        output_tokens: count_or_zero(u.output_tokens),
    }
}

/// The state after one more line. Lines that are no response, and further lines of the
/// response seen last, change nothing.
pub open spec fn consumed(p: Progress, entry: Option<TranscriptEntry>) -> Progress {
    match entry {
        None => p,
        Some(e) => if e.role@ != "assistant"@ {
            p
        } else if e.request_id is Some && opt_view(p.last_request_id) == opt_view(e.request_id) {
            p
        } else {
            let q = Progress {
                last_request_id: if e.request_id is Some {
                    e.request_id
                } else {
                    p.last_request_id
                },
                ..p
            };
            match e.usage {
                None => q,
                Some(u) => Progress { totals: p.totals.plus(usage_totals(u)), ..q },
            }
        },
    }
}

/// The state after a list of lines.
pub open spec fn consumed_all(p: Progress, entries: Seq<Option<TranscriptEntry>>) -> Progress
    decreases entries.len(),
{
    if entries.len() == 0 {
        p
    } else {
        consumed(consumed_all(p, entries.drop_last()), entries.last())
    }
}

/// Fold one transcript line into the running state. A line that could not be parsed is
/// passed as absent.
pub fn consume_line(entry: &Option<TranscriptEntry>, state: &mut Progress)
    requires
        old(state).totals.room_for(1),
    ensures
        *final(state) == consumed(*old(state), *entry),
{
    match entry {
        None => {},
        Some(e) => {
            if !same(e.role.as_str(), "assistant") {
                return ;
            }
            match &e.request_id {
                Some(rid) => {
                    let repeated = match &state.last_request_id {
                        Some(last) => same(last.as_str(), rid.as_str()),
                        None => false,
                    };
                    if repeated {
                        return ;
                    }
                    state.last_request_id = Some(rid.clone());
                },
                None => {},
            }
            match &e.usage {
                None => {},
                Some(u) => {
                    let t = TranscriptTotals {
                        requests: 1,
                        input_tokens: count_of(&u.input_tokens),
                        cache_read_tokens: count_of(&u.cache_read_input_tokens),
                        cache_creation_tokens: count_of(&u.cache_creation_input_tokens),
                        output_tokens: count_of(&u.output_tokens),
                    };
                    state.totals.add(&t);
                },
            }
        },
    }
}

proof fn lemma_consumed_room(p: Progress, e: Option<TranscriptEntry>, n: nat)
    requires
        p.totals.room_for(n + 1),
    ensures
        consumed(p, e).totals.room_for(n),
        p.totals.room_for(1),
{
    assert((n + 1) * u32::MAX == n * u32::MAX + u32::MAX) by (nonlinear_arith);
    assert(n * u32::MAX >= 0) by (nonlinear_arith);
}

/// Fold the lines of a list into the running state.
pub fn consume_lines(entries: &Vec<Option<TranscriptEntry>>, state: &mut Progress)
    requires
        old(state).totals.room_for(entries@.len()),
    ensures
        *final(state) == consumed_all(*old(state), entries@),
{
    let mut i: usize = 0;
    while i < entries.len()
        invariant
            i <= entries@.len(),
            *state == consumed_all(*old(state), entries@.take(i as int)),
            state.totals.room_for((entries@.len() - i) as nat),
        decreases entries@.len() - i,
    {
        proof {
            lemma_consumed_room(*state, entries@[i as int], (entries@.len() - i - 1) as nat);
            assert(entries@.take(i + 1).drop_last() =~= entries@.take(i as int));
            assert(entries@.take(i + 1).last() == entries@[i as int]);
        }
        consume_line(&entries[i], state);
        i += 1;
    }
    proof {
        assert(entries@.take(entries@.len() as int) =~= entries@);
    }
}

/// The state after reading `buf` from the stored offset on, its response lines parsed
/// into `entries`.
pub open spec fn absorbed(
    p: Progress,
    buf: Seq<u8>,
    entries: Seq<Option<TranscriptEntry>>,
    size: u64,
    mtime: i64,
) -> Progress {
    Progress {
        size,
        mtime,
        offset: (p.offset + complete_part(buf)) as u64,
        ..consumed_all(p, entries)
    }
}

/// Advance the state over the bytes that were read from its offset on. `entries` holds,
/// for each line of [`lines_to_parse`], what was parsed of it.
pub fn absorb(
    state: &mut Progress,
    buf: &Vec<u8>,
    entries: &Vec<Option<TranscriptEntry>>,
    size: u64,
    mtime: i64,
)
    requires
        entries@.len() == response_lines(buf@).len(),
        old(state).totals.room_for(entries@.len()),
        old(state).offset + buf@.len() <= u64::MAX,
    ensures
        *final(state) == absorbed(*old(state), buf@, entries@, size, mtime),
        complete_part(buf@) <= buf@.len(),
{
    proof {
        lemma_consumed_all_frame(*state, entries@);
    }
    consume_lines(entries, state);
    let n: usize = complete_len(buf);
    state.offset = state.offset + n as u64;
    state.size = size;
    state.mtime = mtime;
}

proof fn lemma_consumed_all_frame(p: Progress, es: Seq<Option<TranscriptEntry>>)
    ensures
        consumed_all(p, es).size == p.size,
        consumed_all(p, es).mtime == p.mtime,
        consumed_all(p, es).offset == p.offset,
        consumed_all(p, es).agent_type == p.agent_type,
    decreases es.len(),
{
    if es.len() > 0 {
        lemma_consumed_all_frame(p, es.drop_last());
    }
}

// ---------------------------------------------------------------------------
// What holds of reading a transcript
// ---------------------------------------------------------------------------

/// Another line of the response seen last changes nothing, whatever it repeats.
pub proof fn repeated_lines_count_once(p: Progress, first: TranscriptEntry, again: TranscriptEntry)
    requires
        first.role@ == "assistant"@,
        first.request_id is Some,
        opt_view(again.request_id) == opt_view(first.request_id),
    ensures
        consumed(consumed(p, Some(first)), Some(again)) == consumed(p, Some(first)),
{
}

/// Reading more of a transcript never lowers a total.
pub proof fn totals_never_fall(p: Progress, entries: Seq<Option<TranscriptEntry>>)
    requires
        p.totals.room_for(entries.len()),
    ensures
        consumed_all(p, entries).totals.at_least(p.totals),
        consumed_all(p, entries).totals.requests <= p.totals.requests + entries.len(),
{
    lemma_totals_grow(p, entries, entries.len());
}

proof fn lemma_totals_grow(p: Progress, es: Seq<Option<TranscriptEntry>>, n: nat)
    requires
        es.len() <= n,
        p.totals.room_for(n),
    ensures
        consumed_all(p, es).totals.at_least(p.totals),
        consumed_all(p, es).totals.requests <= p.totals.requests + es.len(),
        consumed_all(p, es).totals.room_for((n - es.len()) as nat),
    decreases es.len(),
{
    if es.len() > 0 {
        lemma_totals_grow(p, es.drop_last(), n);
        lemma_consumed_room(
            consumed_all(p, es.drop_last()),
            es.last(),
            (n - es.len()) as nat,
        );
    }
}

proof fn lemma_consumed_all_concat(
    p: Progress,
    a: Seq<Option<TranscriptEntry>>,
    b: Seq<Option<TranscriptEntry>>,
)
    ensures
        consumed_all(p, a + b) == consumed_all(consumed_all(p, a), b),
    decreases b.len(),
{
    if b.len() == 0 {
        assert(a + b =~= a);
    } else {
        lemma_consumed_all_concat(p, a, b.drop_last());
        assert((a + b).drop_last() =~= a + b.drop_last());
        assert((a + b).last() == b.last());
    }
}

/// Consuming reads of the state nothing but the totals and the last request id.
proof fn lemma_consumed_all_reads(p: Progress, q: Progress, es: Seq<Option<TranscriptEntry>>)
    requires
        p.totals == q.totals,
        p.last_request_id == q.last_request_id,
    ensures
        consumed_all(p, es).totals == consumed_all(q, es).totals,
        consumed_all(p, es).last_request_id == consumed_all(q, es).last_request_id,
    decreases es.len(),
{
    if es.len() > 0 {
        lemma_consumed_all_reads(p, q, es.drop_last());
    }
}

proof fn lemma_complete_part(x: Seq<u8>)
    ensures
        0 <= complete_part(x) <= x.len(),
        complete_part(x) == 0 || x[complete_part(x) - 1] == 10,
        forall|j: int| complete_part(x) <= j < x.len() ==> x[j] != 10,
    decreases x.len(),
{
    if x.len() > 0 && x.last() != 10 {
        lemma_complete_part(x.drop_last());
        assert forall|j: int| complete_part(x) <= j < x.len() implies x[j] != 10 by {
            if j < x.len() - 1 {
                assert(x.drop_last()[j] == x[j]);
            }
        }
    }
}

proof fn lemma_complete_part_unique(x: Seq<u8>, n: int)
    requires
        0 <= n <= x.len(),
        n == 0 || x[n - 1] == 10,
        forall|j: int| n <= j < x.len() ==> x[j] != 10,
    ensures
        complete_part(x) == n,
{
    lemma_complete_part(x);
    let m = complete_part(x);
    if m < n {
        assert(x[n - 1] != 10);
    } else if n < m {
        assert(x[m - 1] != 10);
    }
}

proof fn lemma_line_end(buf: Seq<u8>, i: int, end: int)
    requires
        0 <= i <= end <= buf.len(),
    ensures
        i <= line_end(buf, i, end) <= end,
        line_end(buf, i, end) < end ==> buf[line_end(buf, i, end)] == 10,
        forall|j: int| i <= j < line_end(buf, i, end) ==> buf[j] != 10,
    decreases end - i,
{
    if i < end && buf[i] != 10 {
        lemma_line_end(buf, i + 1, end);
    }
}

proof fn lemma_line_end_shift(x: Seq<u8>, y: Seq<u8>, i: int, end: int, d: int)
    requires
        0 <= i <= end <= x.len(),
        0 <= i + d,
        end + d <= y.len(),
        forall|j: int| i <= j < end ==> #[trigger] x[j] == y[j + d],
    ensures
        line_end(y, i + d, end + d) == line_end(x, i, end) + d,
    decreases end - i,
{
    if i < end {
        assert(x[i] == y[i + d]);
        if x[i] != 10 {
            lemma_line_end_shift(x, y, i + 1, end, d);
        }
    }
}

proof fn lemma_lines_shift(x: Seq<u8>, y: Seq<u8>, i: int, end: int, d: int)
    requires
        0 <= i <= end <= x.len(),
        0 <= i + d,
        end + d <= y.len(),
        forall|j: int| i <= j < end ==> #[trigger] x[j] == y[j + d],
    ensures
        lines_from(y, i + d, end + d) == lines_from(x, i, end),
    decreases end - i,
{
    if i < end {
        lemma_line_end(x, i, end);
        lemma_line_end_shift(x, y, i, end, d);
        let e = line_end(x, i, end);
        assert(x.subrange(i, e) =~= y.subrange(i + d, e + d)) by {
            assert forall|k: int| 0 <= k < e - i implies x.subrange(i, e)[k] == y.subrange(
                i + d,
                e + d,
            )[k] by {
                assert(x[i + k] == y[i + k + d]);
            }
        }
        if e < end {
            lemma_lines_shift(x, y, e + 1, end, d);
        }
    }
}

proof fn lemma_line_end_short(buf: Seq<u8>, i: int, k: int, end: int)
    requires
        0 <= i < k <= end <= buf.len(),
        buf[k - 1] == 10,
    ensures
        line_end(buf, i, end) == line_end(buf, i, k),
        line_end(buf, i, k) < k,
    decreases k - i,
{
    if buf[i] != 10 {
        lemma_line_end_short(buf, i + 1, k, end);
    }
}

proof fn lemma_lines_split(buf: Seq<u8>, i: int, k: int, end: int)
    requires
        0 <= i <= k <= end <= buf.len(),
        k == i || buf[k - 1] == 10,
    ensures
        lines_from(buf, i, end) == lines_from(buf, i, k) + lines_from(buf, k, end),
    decreases k - i,
{
    if i == k {
        assert(lines_from(buf, i, k) =~= Seq::<Seq<u8>>::empty());
        assert(lines_from(buf, i, end) =~= Seq::<Seq<u8>>::empty() + lines_from(buf, k, end));
    } else {
        lemma_line_end_short(buf, i, k, end);
        lemma_line_end(buf, i, k);
        let e = line_end(buf, i, k);
        lemma_lines_split(buf, e + 1, k, end);
        let line = buf.subrange(i, e);
        assert(seq![line] + (lines_from(buf, e + 1, k) + lines_from(buf, k, end)) =~= seq![line]
            + lines_from(buf, e + 1, k) + lines_from(buf, k, end));
    }
}

/// Reading a transcript in two goes is reading it in one. The first go saw the bytes
/// `a`; the second starts after the last complete line of them and sees the rest of `a`
/// and the bytes `b` appended since. The same lines come up for parsing, and the states
/// agree.
pub proof fn reading_is_incremental(
    p: Progress,
    a: Seq<u8>,
    b: Seq<u8>,
    first: Seq<Option<TranscriptEntry>>,
    second: Seq<Option<TranscriptEntry>>,
    size_then: u64,
    mtime_then: i64,
    size: u64,
    mtime: i64,
)
    requires
        p.offset + a.len() + b.len() <= u64::MAX,
    ensures
        response_lines(a + b) == response_lines(a) + response_lines(
            a.skip(complete_part(a)) + b,
        ),
        absorbed(p, a + b, first + second, size, mtime) == absorbed(
            absorbed(p, a, first, size_then, mtime_then),
            a.skip(complete_part(a)) + b,
            second,
            size,
            mtime,
        ),
{
    let s = a + b;
    let k = complete_part(a);
    let t = a.skip(k) + b;
    lemma_complete_part(a);
    lemma_complete_part(t);
    let m = complete_part(t);
    assert(t.len() == s.len() - k);
    assert forall|j: int| 0 <= j < t.len() implies #[trigger] t[j] == s[j + k] by {}
    assert(k + m == 0 || s[k + m - 1] == 10) by {
        if m > 0 {
            assert(t[m - 1] == s[m - 1 + k]);
        } else if k > 0 {
            assert(s[k - 1] == a[k - 1]);
        }
    }
    assert forall|j: int| k + m <= j < s.len() implies s[j] != 10 by {
        assert(t[j - k] == s[j - k + k]);
    }
    lemma_complete_part_unique(s, k + m);
    assert(k == 0 || s[k - 1] == 10) by {
        if k > 0 {
            assert(s[k - 1] == a[k - 1]);
        }
    }
    lemma_lines_split(s, 0, k, k + m);
    assert forall|j: int| 0 <= j < k implies #[trigger] a[j] == s[j + 0] by {}
    lemma_lines_shift(a, s, 0, k, 0);
    lemma_lines_shift(t, s, 0, m, k);
    // the states
    let q = absorbed(p, a, first, size_then, mtime_then);
    lemma_consumed_all_frame(p, first);
    lemma_consumed_all_frame(q, second);
    lemma_consumed_all_frame(p, first + second);
    lemma_consumed_all_concat(p, first, second);
    lemma_consumed_all_reads(consumed_all(p, first), q, second);
    lemma_consumed_all_frame(consumed_all(p, first), second);
}

/// While a line is still being written, nothing of it counts: bytes without a line feed
/// move neither the offset nor the totals.
pub proof fn unfinished_line_waits(p: Progress, buf: Seq<u8>, size: u64, mtime: i64)
    requires
        forall|i: int| 0 <= i < buf.len() ==> buf[i] != 10,
    ensures
        response_lines(buf) == Seq::<Seq<u8>>::empty(),
        absorbed(p, buf, Seq::empty(), size, mtime).offset == p.offset,
        absorbed(p, buf, Seq::empty(), size, mtime).totals == p.totals,
{
    lemma_complete_part_unique(buf, 0);
}

// ---------------------------------------------------------------------------
// Compact counts
// ---------------------------------------------------------------------------

/// Compact token count: `999`, `449k`, `1.2M`, `152M`.
pub open spec fn short_count(n: nat) -> Seq<char> {
    if n >= 10_000_000 {
        dec(n / 1_000_000) + "M"@
    } else if n >= 1_000_000 {
        quotient_digits(n, 1_000_000, 1) + "M"@
    } else if n >= 1_000 {
        dec(n / 1_000) + "k"@
    } else {
        dec(n)
    }
}

/// Compact token count: `999`, `449k`, `1.2M`, `152M`.
pub fn short_tokens(n: u64) -> (r: String)
    ensures
        r@ == short_count(n as nat),
{
    if n >= 10_000_000 {
        concat2(u64_text(n / 1_000_000).as_str(), "M")
    } else if n >= 1_000_000 {
        concat2(quotient_text(n as u128, 1_000_000, 1).as_str(), "M")
    } else if n >= 1_000 {
        concat2(u64_text(n / 1_000).as_str(), "k")
    } else {
        u64_text(n)
    }
}

} // verus!
