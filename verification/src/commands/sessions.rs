//! The `sessions` command: list recorded sessions, select one, show what is known of it.
//!
//! A session is selected by its position in the list of all sessions, newest first, or by
//! the beginning of its id.

use crate::double::Double;
use crate::error::{failed_with, Result, StatuslineError};
use crate::paths::{
    before_last_part, file_name, file_name_of, last_part, split_last_part, trim_slashes,
    without_slashes,
};
use crate::ratio::{per_digits, per_text, per_thousand_digits, per_thousand_text};
use crate::text::{
    all_digits, byte_head, concat2, concat3, concat4, concat5, dec, dec_int, decimal_reads_back,
    has_prefix, head, i64_text, int_text, is_digit, join, joined, left, lowered, opt_str,
    opt_view, pad_left, pad_right, parse_unsigned, parsed_digits, parsed_unsigned, right, same,
    starts_with, take, take_bytes, to_lower, trim, trimmed, trimmed_end, trimmed_start, two_digits,
    two_digit_text, usize_text, views,
};
use vstd::prelude::*;

verus! {

/// What is recorded of a session.
#[derive(Debug)]
pub struct SessionRow {
    pub session_id: String,
    pub start_time: String,
    pub last_updated: String,
    pub cost: Double,
    pub lines_added: i64,
    pub lines_removed: i64,
    pub max_tokens_observed: i64,
    pub model_name: Option<String>,
    pub workspace_dir: Option<String>,
    pub total_input_tokens: i64,
    pub total_output_tokens: i64,
    pub total_cache_read_tokens: i64,
    pub total_cache_creation_tokens: i64,
    pub active_time_seconds: i64,
    /// Version of the program that ran the session.
    pub version: Option<String>,
    pub agent_count: i64,
    pub agent_requests: i64,
    pub agent_input_tokens: i64,
    pub agent_output_tokens: i64,
    pub main_requests: i64,
    pub main_input_tokens: i64,
    pub main_output_tokens: i64,
}

/// What is recorded of a transcript.
#[derive(Debug)]
pub struct TranscriptRow {
    pub path: String,
    pub is_agent: bool,
    pub agent_type: Option<String>,
    pub size: i64,
    pub requests: i64,
    pub input_tokens: i64,
    pub cache_read_tokens: i64,
    pub cache_creation_tokens: i64,
    pub output_tokens: i64,
}

// ---------------------------------------------------------------------------
// Selecting a session
// ---------------------------------------------------------------------------

/// Whether the id of a session begins so, letters of either case.
pub open spec fn id_begins(r: SessionRow, prefix: Seq<char>) -> bool {
    has_prefix(lowered(r.session_id@), lowered(prefix))
}

/// The positions of the sessions whose id begins so, among the first `n`.
pub open spec fn hits(rows: Seq<SessionRow>, prefix: Seq<char>, n: int) -> Seq<int>
    decreases n,
{
    if n <= 0 {
        Seq::empty()
    } else if id_begins(rows[n - 1], prefix) {
        hits(rows, prefix, n - 1).push(n - 1)
    } else {
        hits(rows, prefix, n - 1)
    }
}

/// What a selection comes to.
pub enum Selection {
    /// Nothing was typed.
    Nothing,
    /// One session, by its place in the list.
    One(int),
    /// No session.
    NoMatch,
    /// Several sessions, by their places in the list.
    Several(Seq<int>),
}

/// What a selection comes to: a number within the list is a position, counted from one;
/// anything else, or a number beyond the list, is the beginning of an id.
pub open spec fn selected(rows: Seq<SessionRow>, sel: Seq<char>) -> Selection {
    let s = trimmed(sel);
    let found = hits(rows, s, rows.len() as int);
    if s.len() == 0 {
        Selection::Nothing
    } else if parsed_unsigned(s) matches Some(n) && 1 <= n <= rows.len() {
        Selection::One(parsed_unsigned(s)->Some_0 - 1)
    } else if found.len() == 1 {
        Selection::One(found[0])
    } else if found.len() == 0 {
        Selection::NoMatch
    } else {
        Selection::Several(found)
    }
}

/// The ids at some positions, at most `n` of them.
pub open spec fn ids_at(rows: Seq<SessionRow>, positions: Seq<int>, n: int) -> Seq<Seq<char>> {
    Seq::new(
        (if positions.len() <= n {
            positions.len() as int
        } else {
            n
        }) as nat,
        |i: int| rows[positions[i]].session_id@,
    )
}

/// How many candidates an ambiguous selection names.
pub const CANDIDATES: usize = 8;

/// Whether a selection was answered as it should be.
pub open spec fn answers(r: Result<&SessionRow>, rows: Seq<SessionRow>, sel: Seq<char>) -> bool {
    match selected(rows, sel) {
        Selection::Nothing => failed_with(r, "empty selection"@),
        Selection::One(i) => r matches Ok(row) && 0 <= i < rows.len() && *row == rows[i],
        Selection::NoMatch => failed_with(
            r,
            "no session matches '"@ + trimmed(sel) + "' (index 1.."@ + dec(rows.len())
                + " or id prefix)"@,
        ),
        Selection::Several(found) => failed_with(
            r,
            "'"@ + trimmed(sel) + "' matches "@ + dec(found.len())
                + " sessions, lengthen the prefix:\n  "@ + joined(
                ids_at(rows, found, CANDIDATES as int),
                "\n  "@,
            ),
        ),
    }
}

/// The session that was selected, by its position in the list or the beginning of its id.
/// A beginning that several ids share is refused, and some of them are named.
pub fn resolve<'a>(rows: &'a [SessionRow], sel: &str) -> (r: Result<&'a SessionRow>)
    ensures
        answers(r, rows@, sel@),
{
    let sel = trim(sel);
    if sel.as_str().is_empty() {
        return Err(StatuslineError::other("empty selection"));
    }
    let n: usize = rows.len();
    match parse_unsigned(sel.as_str()) {
        Some(i) => {
            if i >= 1 && i <= n as u64 {
                return Ok(&rows[(i - 1) as usize]);
            }
        },
        None => {},
    }
    let lower = to_lower(sel.as_str());
    let mut found: Vec<usize> = Vec::new();
    let mut i: usize = 0;
    let ghost all = rows@;
    while i < n
        invariant
            n == rows@.len(),
            all == rows@,
            i <= n,
            lower@ == lowered(sel@),
            found@.len() == hits(all, sel@, i as int).len(),
            found@.len() <= i,
            forall|j: int|
                0 <= j < found@.len() ==> (#[trigger] found@[j]) < i && found@[j] == hits(
                    all,
                    sel@,
                    i as int,
                )[j],
        decreases n - i,
    {
        if starts_with(to_lower(rows[i].session_id.as_str()).as_str(), lower.as_str()) {
            found.push(i);
        }
        i += 1;
    }
    let count: usize = found.len();
    if count == 1 {
        return Ok(&rows[found[0]]);
    }
    if count == 0 {
        let head = concat3("no session matches '", sel.as_str(), "' (index 1..");
        return Err(
            StatuslineError::Other(
                concat3(head.as_str(), usize_text(n).as_str(), " or id prefix)"),
            ),
        );
    }
    let shown: usize = if count <= CANDIDATES {
        count
    } else {
        CANDIDATES
    };
    let mut ids: Vec<String> = Vec::new();
    let mut k: usize = 0;
    while k < shown
        invariant
            k <= shown <= found@.len(),
            all == rows@,
            n == rows@.len(),
            ids@.len() == k,
            forall|j: int| 0 <= j < found@.len() ==> (#[trigger] found@[j]) < n,
            forall|j: int| 0 <= j < k ==> (#[trigger] ids@[j])@ == all[found@[j] as int].session_id@,
        decreases shown - k,
    {
        ids.push(rows[found[k]].session_id.clone());
        k += 1;
    }
    proof {
        assert(views(ids@) =~= ids_at(all, hits(all, sel@, n as int), CANDIDATES as int));
    }
    let head = concat3("'", sel.as_str(), "' matches ");
    let tail = concat2(" sessions, lengthen the prefix:\n  ", join(&ids, "\n  ").as_str());
    proof {
        assert(head@ + dec(count as nat) + tail@ =~= "'"@ + sel@ + "' matches "@ + dec(
            count as nat,
        ) + " sessions, lengthen the prefix:\n  "@ + joined(views(ids@), "\n  "@));
    }
    Err(StatuslineError::Other(concat3(head.as_str(), usize_text(count).as_str(), tail.as_str())))
}

// ---------------------------------------------------------------------------
// Which sessions are listed
// ---------------------------------------------------------------------------

/// Whether a directory is another one, or lies below it. Paths are compared part by part.
pub open spec fn is_under(dir: Option<Seq<char>>, filter: Seq<char>) -> bool {
    match dir {
        Some(p) => {
            let d = without_slashes(p);
            let f = without_slashes(filter);
            d == f || (has_prefix(d, f) && d.len() > f.len() && d[f.len() as int] == '/')
        },
        None => false,
    }
}

/// Whether a directory is `filter` itself or a directory below it.
pub fn under_workspace(dir: Option<&String>, filter: &str) -> (r: bool)
    ensures
        r == is_under(
            match dir {
                Some(d) => Some(d@),
                None => None,
            },
            filter@,
        ),
{
    match dir {
        Some(p) => {
            let d = trim_slashes(p.as_str());
            let f = trim_slashes(filter);
            if same(d.as_str(), f.as_str()) {
                return true;
            }
            let below = concat2(f.as_str(), "/");
            proof {
                reveal_strlit("/");
                let t = d@.take(below@.len() as int);
                if has_prefix(d@, below@) {
                    assert(d@.take(f@.len() as int) =~= t.take(f@.len() as int));
                    assert(below@.take(f@.len() as int) =~= f@);
                    assert(t[f@.len() as int] == '/');
                }
                if has_prefix(d@, f@) && d@.len() > f@.len() && d@[f@.len() as int] == '/' {
                    assert(t =~= below@) by {
                        assert forall|i: int| 0 <= i < t.len() implies t[i] == below@[i] by {
                            if i < f@.len() {
                                assert(d@.take(f@.len() as int)[i] == f@[i]);
                            }
                        }
                    }
                }
            }
            starts_with(d.as_str(), below.as_str())
        },
        None => false,
    }
}

/// Whether a session is listed under a filter.
pub open spec fn is_kept(r: SessionRow, filter: Option<Seq<char>>) -> bool {
    match filter {
        Some(f) => is_under(opt_view(r.workspace_dir), f),
        None => true,
    }
}

/// The positions of the sessions that are listed, among the first `n`.
pub open spec fn kept(rows: Seq<SessionRow>, filter: Option<Seq<char>>, n: int) -> Seq<int>
    decreases n,
{
    if n <= 0 {
        Seq::empty()
    } else if is_kept(rows[n - 1], filter) {
        kept(rows, filter, n - 1).push(n - 1)
    } else {
        kept(rows, filter, n - 1)
    }
}

/// The positions of the sessions that are listed: of those that pass the filter the first
/// `limit`, or all of them where that is zero.
pub open spec fn listed(rows: Seq<SessionRow>, filter: Option<Seq<char>>, limit: nat) -> Seq<int> {
    let all = kept(rows, filter, rows.len() as int);
    if limit > 0 && all.len() > limit {
        all.take(limit as int)
    } else {
        all
    }
}

/// Whether an entry is the session at a position, with that position counted from one.
pub open spec fn is_entry(e: (usize, &SessionRow), rows: Seq<SessionRow>, p: int) -> bool {
    0 <= p < rows.len() && e.0 == p + 1 && *e.1 == rows[p]
}

/// The sessions that are listed, each with its position among all sessions, counted from
/// one. The limit counts the sessions that pass the filter.
pub fn index_and_filter<'a>(rows: &'a [SessionRow], filter: Option<&str>, limit: usize) -> (r: Vec<
    (usize, &'a SessionRow),
>)
    ensures
        r@.len() == listed(rows@, opt_str(filter), limit as nat).len(),
        forall|i: int|
            0 <= i < r@.len() ==> is_entry(
                #[trigger] r@[i],
                rows@,
                listed(rows@, opt_str(filter), limit as nat)[i],
            ),
{
    let n: usize = rows.len();
    let mut out: Vec<(usize, &'a SessionRow)> = Vec::new();
    let mut i: usize = 0;
    let ghost all = rows@;
    let ghost f = opt_str(filter);
    while i < n
        invariant
            n == rows@.len(),
            all == rows@,
            f == opt_str(filter),
            i <= n,
            out@.len() == kept(all, f, i as int).len(),
            out@.len() <= i,
            forall|j: int|
                0 <= j < out@.len() ==> is_entry(#[trigger] out@[j], all, kept(all, f, i as int)[j]),
        decreases n - i,
    {
        let row = &rows[i];
        let keep = match filter {
            Some(w) => match &row.workspace_dir {
                Some(d) => under_workspace(Some(d), w),
                None => under_workspace(None, w),
            },
            None => true,
        };
        let ghost before = kept(all, f, i as int);
        let ghost out0 = out@;
        if keep {
            out.push((i + 1, row));
        }
        proof {
            let after = kept(all, f, i + 1);
            assert forall|j: int| 0 <= j < out@.len() implies is_entry(
                #[trigger] out@[j],
                all,
                after[j],
            ) by {
                if j < before.len() {
                    assert(after[j] == before[j]);
                    assert(out@[j] == out0[j]);
                }
            }
        }
        i += 1;
    }
    if limit > 0 && out.len() > limit {
        let ghost whole = out@;
        out.truncate(limit);
        proof {
            assert(out@ =~= whole.take(limit as int));
            assert forall|i: int| 0 <= i < out@.len() implies is_entry(
                #[trigger] out@[i],
                all,
                listed(all, f, limit as nat)[i],
            ) by {
                assert(out@[i] == whole[i]);
                assert(listed(all, f, limit as nat)[i] == kept(all, f, n as int)[i]);
            }
        }
    }
    out
}

proof fn lemma_kept_in_range(rows: Seq<SessionRow>, filter: Option<Seq<char>>, n: int)
    requires
        n <= rows.len(),
    ensures
        forall|i: int|
            0 <= i < kept(rows, filter, n).len() ==> 0 <= #[trigger] kept(rows, filter, n)[i] < n,
    decreases n,
{
    if n > 0 {
        lemma_kept_in_range(rows, filter, n - 1);
        let before = kept(rows, filter, n - 1);
        assert forall|i: int| 0 <= i < kept(rows, filter, n).len() implies 0
            <= #[trigger] kept(rows, filter, n)[i] < n by {
            if i < before.len() {
                assert(kept(rows, filter, n)[i] == before[i]);
            }
        }
    }
}

/// The directory that a filter means, with a tilde at its beginning replaced by the home
/// directory.
pub open spec fn expanded(raw: Seq<char>, home: Option<Seq<char>>) -> Seq<char> {
    let tilde = raw.len() > 0 && raw[0] == '~' && (raw.len() == 1 || raw[1] == '/');
    match home {
        Some(h) => if tilde {
            h + raw.skip(1)
        } else {
            raw
        },
        None => raw,
    }
}

/// The directory that a filter means: a tilde alone, or before a slash, stands for the home
/// directory. `~name` is left as it is.
pub fn expand_tilde(raw: &str, home: Option<&str>) -> (r: String)
    ensures
        r@ == expanded(raw@, opt_str(home)),
{
    let c = crate::text::chars_of(raw);
    let n: usize = c.len();
    let tilde = n > 0 && c[0] == '~' && (n == 1 || c[1] == '/');
    match home {
        Some(h) => {
            if tilde {
                proof {
                    assert(c@.subrange(1, n as int) =~= raw@.skip(1));
                }
                concat2(h, crate::text::text_of(&c, 1, n).as_str())
            } else {
                raw.to_owned()
            }
        },
        None => raw.to_owned(),
    }
}

// ---------------------------------------------------------------------------
// How figures are written
// ---------------------------------------------------------------------------

/// The agents' part of the input, in percent with one decimal.
pub open spec fn share_digits(agent: int, main: int) -> Seq<char> {
    per_digits(agent * 100, agent + main, 1)
}

/// The agents' part of the input, in percent with one decimal.
pub fn share(agent: i64, main: i64) -> (r: String)
    ensures
        r@ == share_digits(agent as int, main as int),
{
    per_text(agent as i128 * 100, agent as i128 + main as i128, 1)
}

/// The quotient towards zero.
pub open spec fn towards_zero(a: int, b: int) -> int {
    if a < 0 {
        -((-a) / b)
    } else {
        a / b
    }
}

fn quotient(a: i64, b: i64) -> (r: i64)
    requires
        1 < b,
    ensures
        r == towards_zero(a as int, b as int),
{
    if a < 0 {
        let m: i128 = -(a as i128);
        let q: i128 = m / b as i128;
        proof {
            assert(0 <= q <= m) by (nonlinear_arith)
                requires
                    m >= 0,
                    b > 1,
                    q == m / b as i128,
            ;
            assert(q < 0x8000_0000_0000_0000) by (nonlinear_arith)
                requires
                    0 <= m <= 0x8000_0000_0000_0000,
                    b > 1,
                    q == m / b as i128,
            ;
        }
        (-q) as i64
    } else {
        a / b
    }
}

/// A number in at least two places.
pub open spec fn two_places(n: int) -> Seq<char> {
    if n < 0 {
        dec_int(n)
    } else {
        two_digits(n as nat)
    }
}

fn two_places_text(n: i64) -> (r: String)
    ensures
        r@ == two_places(n as int),
{
    if n < 0 {
        i64_text(n)
    } else {
        two_digit_text(n as u64)
    }
}

/// A time in hours and minutes.
pub open spec fn hours_and_minutes(secs: int) -> Seq<char> {
    let hours = towards_zero(secs, 3600);
    let minutes = towards_zero(secs - hours * 3600, 60);
    dec_int(hours) + "h"@ + two_places(minutes) + "m"@
}

/// A time in hours and minutes: `1h02m`.
pub fn hms(secs: i64) -> (r: String)
    ensures
        r@ == hours_and_minutes(secs as int),
{
    let hours: i64 = quotient(secs, 3600);
    let rest: i64 = (secs as i128 - hours as i128 * 3600) as i64;
    let minutes: i64 = quotient(rest, 60);
    concat4(i64_text(hours).as_str(), "h", two_places_text(minutes).as_str(), "m")
}

/// The text there is.
pub open spec fn text_or(s: Option<String>, other: Seq<char>) -> Seq<char> {
    match s {
        Some(t) => t@,
        None => other,
    }
}

fn or_text(s: &Option<String>, other: &str) -> (r: String)
    ensures
        r@ == text_or(*s, other@),
{
    match s {
        Some(t) => t.clone(),
        None => other.to_owned(),
    }
}

/// The first `n` characters of a text, if there is one.
pub fn short(s: &Option<String>, n: usize) -> (r: String)
    ensures
        r@ == head(text_or(*s, ""@), n as nat),
{
    take(or_text(s, "").as_str(), n)
}

/// The last two parts of a path.
pub open spec fn last_two_parts(p: Seq<char>) -> Seq<char> {
    let last = last_part(p);
    let before = last_part(before_last_part(p));
    if before.len() == 0 {
        last
    } else {
        before + "/"@ + last
    }
}

/// The last two parts of a path, so that it fits a narrow column.
pub fn ws_tail(s: &Option<String>) -> (r: String)
    ensures
        r@ == last_two_parts(text_or(*s, ""@)),
{
    let p = or_text(s, "");
    let (last, rest) = split_last_part(p.as_str());
    let (before, _) = split_last_part(rest.as_str());
    if before.as_str().is_empty() {
        last
    } else {
        concat3(before.as_str(), "/", last.as_str())
    }
}

// ---------------------------------------------------------------------------
// The list
// ---------------------------------------------------------------------------

/// The line of a session in the list.
pub open spec fn list_line(n: nat, r: SessionRow) -> Seq<char> {
    joined(
        seq![
            right(dec(n), 3) + " "@,
            left(byte_head(r.session_id@, 8), 8),
            left(byte_head(r.start_time@, 16), 16),
            left(byte_head(r.last_updated@, 16), 16),
            left(head(text_or(r.version, ""@), 9), 9),
            left(head(text_or(r.model_name, ""@), 18), 18),
            left(head(last_two_parts(text_or(r.workspace_dir, ""@)), 22), 22),
            right(dec_int(r.main_requests as int), 8),
            right(dec_int(r.agent_count as int), 6),
            right(share_digits(r.agent_input_tokens as int, r.main_input_tokens as int), 5) + "%"@,
            right(r.cost.digits(2), 8),
        ],
        " "@,
    )
}

fn list_line_text(n: usize, r: &SessionRow) -> (t: String)
    ensures
        t@ == list_line(n as nat, *r),
{
    let share = share(r.agent_input_tokens, r.main_input_tokens);
    let columns = vec![
        concat2(pad_right(usize_text(n).as_str(), 3).as_str(), " "),
        pad_left(take_bytes(r.session_id.as_str(), 8).as_str(), 8),
        pad_left(take_bytes(r.start_time.as_str(), 16).as_str(), 16),
        pad_left(take_bytes(r.last_updated.as_str(), 16).as_str(), 16),
        pad_left(short(&r.version, 9).as_str(), 9),
        pad_left(short(&r.model_name, 18).as_str(), 18),
        pad_left(take(ws_tail(&r.workspace_dir).as_str(), 22).as_str(), 22),
        pad_right(i64_text(r.main_requests).as_str(), 8),
        pad_right(i64_text(r.agent_count).as_str(), 6),
        concat2(pad_right(share.as_str(), 5).as_str(), "%"),
        pad_right(r.cost.text(2).as_str(), 8),
    ];
    proof {
        assert(views(columns@) =~= seq![
            right(dec(n as nat), 3) + " "@,
            left(byte_head(r.session_id@, 8), 8),
            left(byte_head(r.start_time@, 16), 16),
            left(byte_head(r.last_updated@, 16), 16),
            left(head(text_or(r.version, ""@), 9), 9),
            left(head(text_or(r.model_name, ""@), 18), 18),
            left(head(last_two_parts(text_or(r.workspace_dir, ""@)), 22), 22),
            right(dec_int(r.main_requests as int), 8),
            right(dec_int(r.agent_count as int), 6),
            right(share_digits(r.agent_input_tokens as int, r.main_input_tokens as int), 5) + "%"@,
            right(r.cost.digits(2), 8),
        ]);
    }
    join(&columns, " ")
}

/// What stands above the list.
pub const LIST_HEADER: &'static str = "  #  session  start            last             version   model              workspace              main_req agents share%    cost*";

pub const COST_NOTE: &'static str = "cost* = counter of the last CLI process for the session; resets on resume";

pub const ATTRIBUTION_NOTE: &'static str = "main_req/agents/share% = 0 for sessions recorded before attribution existed";

pub const SELECT_NOTE: &'static str = "select with: statusline sessions show <#|id-prefix>   (or: sessions pick)";

pub const FILTER_NOTE: &'static str = "filtered by workspace; # is the position in the unfiltered list, so `sessions show <#>` still works";

/// The lines of the sessions at some positions.
pub open spec fn entry_lines(rows: Seq<SessionRow>, positions: Seq<int>) -> Seq<Seq<char>> {
    positions.map_values(|p: int| list_line((p + 1) as nat, rows[p]))
}

/// The list of sessions at some positions.
pub open spec fn list_text(rows: Seq<SessionRow>, positions: Seq<int>) -> Seq<Seq<char>> {
    seq![LIST_HEADER@] + entry_lines(rows, positions) + seq![
        Seq::empty(),
        COST_NOTE@,
        ATTRIBUTION_NOTE@,
        SELECT_NOTE@,
    ]
}

/// What is shown in place of an empty list.
pub open spec fn nothing_text(filter: Option<Seq<char>>) -> Seq<char> {
    match filter {
        Some(w) => "(no sessions recorded under "@ + w + ")"@,
        None => "(no sessions recorded)"@,
    }
}

/// Everything that a list shows.
pub open spec fn shown_list(
    rows: Seq<SessionRow>,
    filter: Option<Seq<char>>,
    limit: nat,
    note_filter: bool,
) -> Seq<Seq<char>> {
    let positions = listed(rows, filter, limit);
    if positions.len() == 0 {
        seq![nothing_text(filter)]
    } else if note_filter && filter is Some {
        list_text(rows, positions) + seq![Seq::empty(), FILTER_NOTE@]
    } else {
        list_text(rows, positions)
    }
}

/// The list of sessions, line by line: those under a directory, or all of them; at most
/// `limit`, or all of them where that is zero. A note may follow that says what the
/// positions mean under a filter.
pub fn list_lines(rows: &[SessionRow], filter: Option<&str>, limit: usize, note_filter: bool) -> (r:
    Vec<String>)
    ensures
        views(r@) == shown_list(rows@, opt_str(filter), limit as nat, note_filter),
{
    let view = index_and_filter(rows, filter, limit);
    let ghost positions = listed(rows@, opt_str(filter), limit as nat);
    let n: usize = view.len();
    let mut out: Vec<String> = Vec::new();
    if n == 0 {
        let line = match filter {
            Some(w) => concat3("(no sessions recorded under ", w, ")"),
            None => "(no sessions recorded)".to_owned(),
        };
        out.push(line);
        proof {
            assert(views(out@) =~= seq![nothing_text(opt_str(filter))]);
        }
        return out;
    }
    out.push(LIST_HEADER.to_owned());
    let mut i: usize = 0;
    while i < n
        invariant
            n == view@.len(),
            n == positions.len(),
            i <= n,
            out@.len() == i + 1,
            out@[0]@ == LIST_HEADER@,
            forall|j: int| 0 <= j < n ==> is_entry(#[trigger] view@[j], rows@, positions[j]),
            forall|j: int|
                0 <= j < i ==> (#[trigger] out@[j + 1])@ == list_line(
                    (positions[j] + 1) as nat,
                    rows@[positions[j]],
                ),
        decreases n - i,
    {
        let (number, row) = view[i];
        let ghost out0 = out@;
        out.push(list_line_text(number, row));
        proof {
            assert(is_entry(view@[i as int], rows@, positions[i as int]));
            assert forall|j: int| 0 <= j < i + 1 implies (#[trigger] out@[j + 1])@ == list_line(
                (positions[j] + 1) as nat,
                rows@[positions[j]],
            ) by {
                if j < i {
                    assert(out@[j + 1] == out0[j + 1]);
                }
            }
        }
        i += 1;
    }
    proof {
        assert(views(out@) =~= seq![LIST_HEADER@] + entry_lines(rows@, positions)) by {
            let want = seq![LIST_HEADER@] + entry_lines(rows@, positions);
            assert forall|j: int| 0 <= j < out@.len() implies views(out@)[j] == want[j] by {
                if j > 0 {
                    assert(out@[(j - 1) + 1] == out@[j]);
                }
            }
        }
    }
    let ghost top = views(out@);
    out.push(String::new());
    out.push(COST_NOTE.to_owned());
    out.push(ATTRIBUTION_NOTE.to_owned());
    out.push(SELECT_NOTE.to_owned());
    proof {
        assert(Seq::<char>::empty() =~= out@[n as int + 1]@);
        assert(views(out@) =~= top + seq![
            Seq::empty(),
            COST_NOTE@,
            ATTRIBUTION_NOTE@,
            SELECT_NOTE@,
        ]);
    }
    if note_filter && filter.is_some() {
        let ghost base = views(out@);
        out.push(String::new());
        out.push(FILTER_NOTE.to_owned());
        proof {
            assert(Seq::<char>::empty() =~= out@[n as int + 5]@);
            assert(views(out@) =~= base + seq![Seq::empty(), FILTER_NOTE@]);
        }
    }
    out
}

// ---------------------------------------------------------------------------
// One session
// ---------------------------------------------------------------------------

/// The program whose sessions these are.
#[derive(Debug)]
pub struct Host {
    /// What it is called.
    pub name: String,
    /// The command that starts it.
    pub command: String,
}

/// A name without the ending of a transcript, however often it stands there.
pub open spec fn without_ending(s: Seq<char>) -> Seq<char>
    decreases s.len(),
{
    if s.len() >= 6 && s.skip(s.len() - 6) == ".jsonl"@ {
        without_ending(s.take(s.len() - 6))
    } else {
        s
    }
}

fn trim_ending(s: &str) -> (r: String)
    ensures
        r@ == without_ending(s@),
{
    let c = crate::text::chars_of(s);
    let mut n: usize = c.len();
    proof {
        assert(c@.take(n as int) =~= c@);
    }
    while n >= 6
        invariant
            n <= c@.len(),
            without_ending(c@.take(n as int)) == without_ending(c@),
        ensures
            n <= c@.len(),
            without_ending(c@) == c@.take(n as int),
        decreases n,
    {
        let tail = crate::text::text_of(&c, n - 6, n);
        proof {
            assert(c@.subrange(n - 6, n as int) =~= c@.take(n as int).skip(n - 6));
            assert(c@.take(n as int).take(n - 6) =~= c@.take(n - 6));
        }
        if !same(tail.as_str(), ".jsonl") {
            break ;
        }
        n -= 6;
    }
    proof {
        assert(c@.subrange(0, n as int) =~= c@.take(n as int));
    }
    crate::text::text_of(&c, 0, n)
}

/// The name that a transcript is listed under.
pub open spec fn transcript_name(path: Seq<char>) -> Seq<char> {
    without_ending(
        match file_name_of(path) {
            Some(n) => n,
            None => path,
        },
    )
}

/// The line of an agent's transcript.
pub open spec fn agent_line(t: TranscriptRow) -> Seq<char> {
    "  "@ + joined(
        seq![
            left(transcript_name(t.path@), 28),
            left(text_or(t.agent_type, "?"@), 18),
            right(dec_int(t.requests as int), 6),
            right(dec_int(t.input_tokens + t.cache_creation_tokens), 10),
            right(dec_int(t.cache_read_tokens as int), 10),
            right(dec_int(t.output_tokens as int), 9),
            right(dec_int(towards_zero(t.size as int, 1024)), 8),
        ],
        " "@,
    )
}

fn agent_line_text(t: &TranscriptRow) -> (r: String)
    ensures
        r@ == agent_line(*t),
{
    let name = match file_name(t.path.as_str()) {
        Some(n) => n,
        None => t.path.clone(),
    };
    let input: i128 = t.input_tokens as i128 + t.cache_creation_tokens as i128;
    let columns = vec![
        pad_left(trim_ending(name.as_str()).as_str(), 28),
        pad_left(or_text(&t.agent_type, "?").as_str(), 18),
        pad_right(i64_text(t.requests).as_str(), 6),
        pad_right(int_text(input).as_str(), 10),
        pad_right(i64_text(t.cache_read_tokens).as_str(), 10),
        pad_right(i64_text(t.output_tokens).as_str(), 9),
        pad_right(i64_text(quotient(t.size, 1024)).as_str(), 8),
    ];
    proof {
        assert(views(columns@) =~= seq![
            left(transcript_name(t.path@), 28),
            left(text_or(t.agent_type, "?"@), 18),
            right(dec_int(t.requests as int), 6),
            right(dec_int(t.input_tokens + t.cache_creation_tokens), 10),
            right(dec_int(t.cache_read_tokens as int), 10),
            right(dec_int(t.output_tokens as int), 9),
            right(dec_int(towards_zero(t.size as int, 1024)), 8),
        ]);
    }
    concat2("  ", join(&columns, " ").as_str())
}

/// The lines of the agents' transcripts.
pub open spec fn agent_lines(transcripts: Seq<TranscriptRow>) -> Seq<Seq<char>>
    decreases transcripts.len(),
{
    if transcripts.len() == 0 {
        Seq::empty()
    } else if transcripts.last().is_agent {
        agent_lines(transcripts.drop_last()).push(agent_line(transcripts.last()))
    } else {
        agent_lines(transcripts.drop_last())
    }
}

fn agent_line_list(transcripts: &Vec<TranscriptRow>) -> (r: Vec<String>)
    ensures
        views(r@) == agent_lines(transcripts@),
{
    let n: usize = transcripts.len();
    let mut out: Vec<String> = Vec::new();
    let mut i: usize = 0;
    let ghost all = transcripts@;
    proof {
        assert(all.take(0) =~= Seq::<TranscriptRow>::empty());
        assert(views(out@) =~= Seq::<Seq<char>>::empty());
    }
    while i < n
        invariant
            n == transcripts@.len(),
            all == transcripts@,
            i <= n,
            views(out@) == agent_lines(all.take(i as int)),
        decreases n - i,
    {
        let t = &transcripts[i];
        proof {
            assert(all.take(i + 1).drop_last() =~= all.take(i as int));
        }
        let ghost before = views(out@);
        if t.is_agent {
            out.push(agent_line_text(t));
            proof {
                assert(views(out@) =~= before.push(agent_line(*t)));
            }
        }
        i += 1;
    }
    proof {
        assert(all.take(n as int) =~= all);
    }
    out
}

/// The path of the first transcript that is not an agent's.
pub open spec fn main_path(transcripts: Seq<TranscriptRow>) -> Option<Seq<char>>
    decreases transcripts.len(),
{
    if transcripts.len() == 0 {
        None
    } else if !transcripts[0].is_agent {
        Some(transcripts[0].path@)
    } else {
        main_path(transcripts.skip(1))
    }
}

/// The path of the main conversation's transcript, if it was read.
pub fn main_transcript(transcripts: &Vec<TranscriptRow>) -> (r: Option<String>)
    ensures
        opt_view(r) == main_path(transcripts@),
{
    let n: usize = transcripts.len();
    let mut i: usize = 0;
    let ghost all = transcripts@;
    proof {
        assert(all.skip(0) =~= all);
    }
    while i < n
        invariant
            n == transcripts@.len(),
            all == transcripts@,
            i <= n,
            main_path(all) == main_path(all.skip(i as int)),
        decreases n - i,
    {
        if !transcripts[i].is_agent {
            return Some(transcripts[i].path.clone());
        }
        proof {
            assert(all.skip(i as int).skip(1) =~= all.skip(i + 1));
        }
        i += 1;
    }
    None
}

/// What identifies a session, and its counters.
pub open spec fn identity_lines(r: SessionRow) -> Seq<Seq<char>> {
    seq![
        "session_id        "@ + r.session_id@,
        "claude_version    "@ + text_or(r.version, "?"@),
        "model             "@ + text_or(r.model_name, "?"@),
        "workspace         "@ + text_or(r.workspace_dir, "?"@),
        "start             "@ + r.start_time@,
        "last_updated      "@ + r.last_updated@,
        "active_time       "@ + hours_and_minutes(r.active_time_seconds as int) + " ("@ + dec_int(
            r.active_time_seconds as int,
        ) + " s)"@,
        "cost*             $"@ + r.cost.digits(2),
        "lines             +"@ + dec_int(r.lines_added as int) + " / -"@ + dec_int(
            r.lines_removed as int,
        ),
        "max_context_seen  "@ + dec_int(r.max_tokens_observed as int) + " tokens"@,
        Seq::empty(),
    ]
}

fn push_identity(out: &mut Vec<String>, r: &SessionRow)
    ensures
        views(final(out)@) == views(old(out)@) + identity_lines(*r),
{
    let ghost before = views(out@);
    out.push(concat2("session_id        ", r.session_id.as_str()));
    out.push(concat2("claude_version    ", or_text(&r.version, "?").as_str()));
    out.push(concat2("model             ", or_text(&r.model_name, "?").as_str()));
    out.push(concat2("workspace         ", or_text(&r.workspace_dir, "?").as_str()));
    out.push(concat2("start             ", r.start_time.as_str()));
    out.push(concat2("last_updated      ", r.last_updated.as_str()));
    out.push(
        concat5(
            "active_time       ",
            hms(r.active_time_seconds).as_str(),
            " (",
            i64_text(r.active_time_seconds).as_str(),
            " s)",
        ),
    );
    out.push(concat2("cost*             $", r.cost.text(2).as_str()));
    out.push(
        concat4(
            "lines             +",
            i64_text(r.lines_added).as_str(),
            " / -",
            i64_text(r.lines_removed).as_str(),
        ),
    );
    out.push(
        concat3("max_context_seen  ", i64_text(r.max_tokens_observed).as_str(), " tokens"),
    );
    out.push(String::new());
    proof {
        assert(out@[before.len() as int + 10]@ =~= Seq::<char>::empty());
        assert(views(out@) =~= before + identity_lines(*r));
    }
}

/// What a session's tokens come to, as reported and as read from its transcripts.
pub open spec fn token_lines(r: SessionRow, host: Seq<char>) -> Seq<Seq<char>> {
    seq![
        "payload totals (main conversation, as reported by "@ + host + ")"@,
        "  input "@ + dec_int(r.total_input_tokens as int) + ("  output "@ + dec_int(
            r.total_output_tokens as int,
        )) + ("  cache_read "@ + dec_int(r.total_cache_read_tokens as int)) + ("  cache_write "@
            + dec_int(r.total_cache_creation_tokens as int)),
        Seq::empty(),
        "attribution (from transcripts, requestId-deduped)"@,
        "  main    requests "@ + right(dec_int(r.main_requests as int), 6) + ("  in "@ + right(
            dec_int(r.main_input_tokens as int),
            12,
        )) + ("  out "@ + right(dec_int(r.main_output_tokens as int), 10)) + ("  in_k/req "@
            + right(
            per_thousand_digits(r.main_input_tokens as int, r.main_requests as int),
            7,
        )) + ("  out/req "@ + right(
            per_digits(r.main_output_tokens as int, r.main_requests as int, 0),
            6,
        )),
        "  agents  requests "@ + right(dec_int(r.agent_requests as int), 6) + ("  in "@ + right(
            dec_int(r.agent_input_tokens as int),
            12,
        )) + ("  out "@ + right(dec_int(r.agent_output_tokens as int), 10)) + ("  files "@ + right(
            dec_int(r.agent_count as int),
            4,
        )) + ("  share "@ + right(
            share_digits(r.agent_input_tokens as int, r.main_input_tokens as int),
            5,
        ) + "%"@),
    ]
}

fn push_tokens(out: &mut Vec<String>, r: &SessionRow, host: &str)
    ensures
        views(final(out)@) == views(old(out)@) + token_lines(*r, host@),
{
    let ghost before = views(out@);
    out.push(concat3("payload totals (main conversation, as reported by ", host, ")"));
    let a = concat2("  input ", i64_text(r.total_input_tokens).as_str());
    let b = concat2("  output ", i64_text(r.total_output_tokens).as_str());
    let c = concat2("  cache_read ", i64_text(r.total_cache_read_tokens).as_str());
    let d = concat2("  cache_write ", i64_text(r.total_cache_creation_tokens).as_str());
    out.push(concat4(a.as_str(), b.as_str(), c.as_str(), d.as_str()));
    out.push(String::new());
    out.push("attribution (from transcripts, requestId-deduped)".to_owned());
    let a = concat2(
        "  main    requests ",
        pad_right(i64_text(r.main_requests).as_str(), 6).as_str(),
    );
    let b = concat2("  in ", pad_right(i64_text(r.main_input_tokens).as_str(), 12).as_str());
    let c = concat2("  out ", pad_right(i64_text(r.main_output_tokens).as_str(), 10).as_str());
    let d = concat2(
        "  in_k/req ",
        pad_right(
            per_thousand_text(r.main_input_tokens as i128, r.main_requests as i128).as_str(),
            7,
        ).as_str(),
    );
    let e = concat2(
        "  out/req ",
        pad_right(
            per_text(r.main_output_tokens as i128, r.main_requests as i128, 0).as_str(),
            6,
        ).as_str(),
    );
    out.push(concat5(a.as_str(), b.as_str(), c.as_str(), d.as_str(), e.as_str()));
    let a = concat2(
        "  agents  requests ",
        pad_right(i64_text(r.agent_requests).as_str(), 6).as_str(),
    );
    let b = concat2("  in ", pad_right(i64_text(r.agent_input_tokens).as_str(), 12).as_str());
    let c = concat2("  out ", pad_right(i64_text(r.agent_output_tokens).as_str(), 10).as_str());
    let d = concat2("  files ", pad_right(i64_text(r.agent_count).as_str(), 4).as_str());
    let part = share(r.agent_input_tokens, r.main_input_tokens);
    let e = concat3("  share ", pad_right(part.as_str(), 5).as_str(), "%");
    out.push(concat5(a.as_str(), b.as_str(), c.as_str(), d.as_str(), e.as_str()));
    proof {
        assert(out@[before.len() as int + 2]@ =~= Seq::<char>::empty());
        assert(views(out@) =~= before + token_lines(*r, host@));
    }
}

/// The columns of the agents' transcripts.
pub const AGENT_COLUMNS: &'static str = "):  type                  req         in   cache_rd       out  size_kB";

/// What is known of the agents' transcripts; nothing where there are none.
pub open spec fn agents_part(transcripts: Seq<TranscriptRow>) -> Seq<Seq<char>> {
    let lines = agent_lines(transcripts);
    if lines.len() == 0 {
        Seq::empty()
    } else {
        seq![Seq::empty(), "agent transcripts ("@ + dec(lines.len()) + AGENT_COLUMNS@] + lines
    }
}

/// Where a session's transcript is, and how the session is resumed.
pub open spec fn resume_lines(
    r: SessionRow,
    transcripts: Seq<TranscriptRow>,
    on_disk: bool,
    command: Seq<char>,
) -> Seq<Seq<char>> {
    seq![
        Seq::empty(),
        match main_path(transcripts) {
            Some(p) => "transcript        "@ + p + (if on_disk {
                ""@
            } else {
                "  (missing on disk)"@
            }),
            None => "transcript        (not scanned yet: renders before attribution existed)"@,
        },
        "resume            "@ + command + " --resume "@ + r.session_id@,
    ]
}

/// Everything that is shown of a session.
pub open spec fn shown_session(
    r: SessionRow,
    transcripts: Seq<TranscriptRow>,
    on_disk: bool,
    host: Host,
) -> Seq<Seq<char>> {
    identity_lines(r) + token_lines(r, host.name@) + agents_part(transcripts) + resume_lines(
        r,
        transcripts,
        on_disk,
        host.command@,
    )
}

/// Everything that is recorded of a session, line by line. `on_disk` says whether the main
/// conversation's transcript still is.
pub fn show_lines(r: &SessionRow, transcripts: &Vec<TranscriptRow>, on_disk: bool, host: &Host) -> (o:
    Vec<String>)
    ensures
        views(o@) == shown_session(*r, transcripts@, on_disk, *host),
{
    let mut out: Vec<String> = Vec::new();
    proof {
        assert(views(out@) =~= Seq::<Seq<char>>::empty());
    }
    push_identity(&mut out, r);
    push_tokens(&mut out, r, host.name.as_str());
    let ghost top = views(out@);
    proof {
        assert(top =~= identity_lines(*r) + token_lines(*r, host.name@));
    }
    let mut agents = agent_line_list(transcripts);
    let ghost lines = views(agents@);
    if agents.len() > 0 {
        out.push(String::new());
        out.push(
            concat3("agent transcripts (", usize_text(agents.len()).as_str(), AGENT_COLUMNS),
        );
        let ghost before = out@;
        let ghost list = agents@;
        out.append(&mut agents);
        proof {
            assert(before[top.len() as int]@ =~= Seq::<char>::empty());
            assert(out@ =~= before + list);
            assert(views(out@) =~= top + agents_part(transcripts@));
        }
    } else {
        proof {
            assert(views(out@) =~= top + agents_part(transcripts@));
        }
    }
    let ghost upper = views(out@);
    out.push(String::new());
    let line = match main_transcript(transcripts) {
        Some(p) => concat3(
            "transcript        ",
            p.as_str(),
            if on_disk {
                ""
            } else {
                "  (missing on disk)"
            },
        ),
        None =>
        "transcript        (not scanned yet: renders before attribution existed)".to_owned(),
    };
    out.push(line);
    out.push(
        concat4(
            "resume            ",
            host.command.as_str(),
            " --resume ",
            r.session_id.as_str(),
        ),
    );
    proof {
        assert(out@[upper.len() as int]@ =~= Seq::<char>::empty());
        assert(views(out@) =~= upper + resume_lines(*r, transcripts@, on_disk, host.command@));
    }
    out
}

// ---------------------------------------------------------------------------
// Laws
// ---------------------------------------------------------------------------

proof fn lemma_dec_is_digits(n: nat)
    ensures
        dec(n).len() > 0,
        all_digits(dec(n)),
    decreases n,
{
    if n >= 10 {
        lemma_dec_is_digits(n / 10);
        let d = dec(n);
        assert forall|i: int| 0 <= i < d.len() implies is_digit(#[trigger] d[i]) by {
            if i < d.len() - 1 {
                assert(d[i] == dec(n / 10)[i]);
            }
        }
    }
}

/// A number that the list shows selects the very session that it stands beside, whatever
/// the filter and the limit of the list: positions are counted among all sessions.
pub proof fn listed_number_selects_its_session(
    rows: Seq<SessionRow>,
    filter: Option<Seq<char>>,
    limit: nat,
    i: int,
)
    requires
        0 <= i < listed(rows, filter, limit).len(),
        rows.len() <= u64::MAX,
    ensures
        ({
            let p = listed(rows, filter, limit)[i];
            &&& 0 <= p < rows.len()
            &&& selected(rows, dec((p + 1) as nat)) == Selection::One(p)
        }),
{
    let all = kept(rows, filter, rows.len() as int);
    lemma_kept_in_range(rows, filter, rows.len() as int);
    let p = listed(rows, filter, limit)[i];
    assert(p == all[i]);
    let s = dec((p + 1) as nat);
    lemma_dec_is_digits((p + 1) as nat);
    decimal_reads_back((p + 1) as u64);
    assert(is_digit(s[0]));
    assert(is_digit(s.last()));
    assert(trimmed_start(s) == s);
    assert(trimmed_end(s) == s);
    assert(trimmed(s) == s);
    assert(parsed_unsigned(s) == parsed_digits(s));
}

/// What is listed under a filter passes it, and a list without a limit leaves out nothing
/// that does.
pub proof fn the_list_is_what_passes(
    rows: Seq<SessionRow>,
    filter: Option<Seq<char>>,
    p: int,
)
    requires
        0 <= p < rows.len(),
    ensures
        listed(rows, filter, 0).contains(p) <==> is_kept(rows[p], filter),
{
    lemma_kept_is_what_passes(rows, filter, rows.len() as int, p);
}

proof fn lemma_kept_is_what_passes(
    rows: Seq<SessionRow>,
    filter: Option<Seq<char>>,
    n: int,
    p: int,
)
    requires
        0 <= n <= rows.len(),
    ensures
        kept(rows, filter, n).contains(p) <==> 0 <= p < n && is_kept(rows[p], filter),
    decreases n,
{
    if n > 0 {
        lemma_kept_is_what_passes(rows, filter, n - 1, p);
        let before = kept(rows, filter, n - 1);
        let after = kept(rows, filter, n);
        if is_kept(rows[n - 1], filter) {
            assert(after == before.push(n - 1));
            assert(after[before.len() as int] == n - 1);
            if before.contains(p) {
                let j = choose|j: int| 0 <= j < before.len() && before[j] == p;
                assert(after[j] == p);
            }
            if after.contains(p) && p != n - 1 {
                let j = choose|j: int| 0 <= j < after.len() && after[j] == p;
                assert(before[j] == p);
            }
        }
    }
}

proof fn lemma_without_slashes(p: Seq<char>)
    ensures
        without_slashes(p).len() <= p.len(),
        without_slashes(p) == p.take(without_slashes(p).len() as int),
        forall|i: int| without_slashes(p).len() <= i < p.len() ==> #[trigger] p[i] == '/',
    decreases p.len(),
{
    if p.len() > 0 && p.last() == '/' {
        lemma_without_slashes(p.drop_last());
        let k = without_slashes(p).len() as int;
        assert(p.drop_last().take(k) =~= p.take(k));
        assert forall|i: int| k <= i < p.len() implies #[trigger] p[i] == '/' by {
            if i < p.len() - 1 {
                assert(p.drop_last()[i] == p[i]);
            }
        }
    } else {
        assert(p.take(p.len() as int) =~= p);
    }
}

/// A directory is under itself, what lies below it is too, and what only begins with the
/// same letters is not.
pub proof fn directories_are_compared_by_parts(dir: Seq<char>, c: char, rest: Seq<char>)
    requires
        dir.len() > 0,
        dir.last() != '/',
        c != '/',
    ensures
        is_under(Some(dir), dir),
        is_under(Some(dir + "/"@), dir),
        is_under(Some(dir), dir + "/"@),
        is_under(Some(dir + "/"@ + seq![c] + rest), dir),
        !is_under(Some(dir + seq![c] + rest), dir),
{
    reveal_strlit("/");
    let slash = dir + "/"@;
    assert(slash.drop_last() =~= dir);
    assert(slash.last() == '/');
    assert(without_slashes(dir) == dir);
    assert(without_slashes(slash) == dir);
    let below = dir + "/"@ + seq![c] + rest;
    lemma_without_slashes(below);
    let b = without_slashes(below);
    assert(below[dir.len() as int + 1] == c);
    assert(b.len() > dir.len() + 1) by {
        if b.len() <= dir.len() + 1 {
            assert(below[dir.len() as int + 1] == '/');
        }
    }
    assert(b.take(dir.len() as int) =~= dir);
    assert(b[dir.len() as int] == '/');
    let beside = dir + seq![c] + rest;
    lemma_without_slashes(beside);
    let d = without_slashes(beside);
    assert(beside[dir.len() as int] == c);
    assert(d.len() > dir.len()) by {
        if d.len() <= dir.len() {
            assert(beside[dir.len() as int] == '/');
        }
    }
    assert(d[dir.len() as int] == c);
}

} // verus!
