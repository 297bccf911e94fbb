//! What of a child process's output may be shown.
//!
//! A line that mentions a key never is, and the rest is kept short.

use crate::text::{
    byte_count, byte_head, concat2, contains, has_part, join, joined, lines,
    lines_of, lowered, stands_at, take, take_bytes, to_lower, trim, trimmed, trimmed_end,
    trimmed_start, views,
};
use vstd::prelude::*;
use vstd::string::*;
use vstd::utf8::*;

verus! {

/// How much of a diagnostic is shown.
pub const STDERR_BOUND: usize = 512;

/// The text that `String::from_utf8_lossy` reads bytes as.
pub uninterp spec fn lossy_text(bytes: Seq<u8>) -> Seq<char>;

/// Calls `String::from_utf8_lossy`. Claims that the outcome depends on the bytes alone,
/// and that bytes which are UTF-8 are read as the text they encode; how other bytes are
/// replaced is left to that function.
#[verifier::external_body]
pub(crate) fn from_utf8_lossy(bytes: &[u8]) -> (r: String)
    ensures
        r@ == lossy_text(bytes@),
        valid_utf8(bytes@) ==> r@ == decode_utf8(bytes@),
{
    String::from_utf8_lossy(bytes).into_owned()
}

/// Whether a text mentions a key or a key header, in any case.
pub open spec fn mentions_key(s: Seq<char>) -> bool {
    let l = lowered(s);
    has_part(l, "sk-ant-"@) || has_part(l, "x-api-key"@) || has_part(l, "api-key"@)
}

pub fn line_mentions_key(s: &str) -> (r: bool)
    ensures
        r == mentions_key(s@),
{
    let l = to_lower(s);
    contains(l.as_str(), "sk-ant-") || contains(l.as_str(), "x-api-key") || contains(
        l.as_str(),
        "api-key",
    )
}

/// The lines that mention no key.
pub open spec fn harmless(lines: Seq<Seq<char>>) -> Seq<Seq<char>>
    decreases lines.len(),
{
    if lines.len() == 0 {
        Seq::empty()
    } else if mentions_key(lines.last()) {
        harmless(lines.drop_last())
    } else {
        harmless(lines.drop_last()).push(lines.last())
    }
}

/// The harmless lines of a text in one line.
pub open spec fn one_line(s: Seq<char>) -> Seq<char> {
    trimmed(joined(harmless(lines_of(s)), " "@))
}

/// The harmless lines of a text in one line.
pub fn harmless_line(s: &str) -> (r: String)
    ensures
        r@ == one_line(s@),
{
    let all = lines(s);
    let mut kept: Vec<String> = Vec::new();
    let mut i: usize = 0;
    proof {
        assert(views(kept@) =~= harmless(views(all@).take(0)));
    }
    while i < all.len()
        invariant
            i <= all@.len(),
            views(all@) == lines_of(s@),
            views(kept@) == harmless(views(all@).take(i as int)),
        decreases all@.len() - i,
    {
        proof {
            assert(views(all@).take(i + 1).drop_last() =~= views(all@).take(i as int));
            assert(views(all@).take(i + 1).last() == all@[i as int]@);
        }
        if !line_mentions_key(all[i].as_str()) {
            let l = all[i].clone();
            proof {
                assert(views(kept@.push(l)) =~= views(kept@).push(l@));
            }
            kept.push(l);
        }
        i += 1;
    }
    proof {
        assert(views(all@).take(all@.len() as int) =~= views(all@));
    }
    let flat = join(&kept, " ");
    trim(flat.as_str())
}

/// A diagnostic of at most so many bytes.
pub open spec fn bounded_by_bytes(s: Seq<char>) -> Seq<char> {
    let t = one_line(s);
    if byte_count(t) > STDERR_BOUND {
        byte_head(t, STDERR_BOUND as nat) + "…"@
    } else if t.len() == 0 {
        "(no diagnostic output)"@
    } else {
        t
    }
}

/// A diagnostic of at most so many characters.
pub open spec fn bounded_by_chars(s: Seq<char>) -> Seq<char> {
    let t = one_line(s);
    if t.len() > STDERR_BOUND {
        t.take(STDERR_BOUND as int) + "…"@
    } else if t.len() == 0 {
        "(no diagnostic output)"@
    } else {
        t
    }
}

/// The harmless part of a text, at most [`STDERR_BOUND`] bytes of it.
pub fn sanitize_to_bytes(s: &str) -> (r: String)
    ensures
        r@ == bounded_by_bytes(s@),
{
    let t = harmless_line(s);
    if crate::text::count_bytes(t.as_str()) > 512 {
        concat2(take_bytes(t.as_str(), 512).as_str(), "…")
    } else if t.as_str().is_empty() {
        "(no diagnostic output)".to_owned()
    } else {
        t
    }
}

/// The harmless part of a text, at most [`STDERR_BOUND`] characters of it.
pub fn sanitize_to_chars(s: &str) -> (r: String)
    ensures
        r@ == bounded_by_chars(s@),
{
    let t = harmless_line(s);
    if t.as_str().unicode_len() > 512 {
        concat2(take(t.as_str(), 512).as_str(), "…")
    } else if t.as_str().is_empty() {
        "(no diagnostic output)".to_owned()
    } else {
        t
    }
}

// ---------------------------------------------------------------------------
// Nothing that is shown mentions a key
// ---------------------------------------------------------------------------

/// `p` is a word: neither empty nor with a space or an ellipsis in it.
spec fn is_word(p: Seq<char>) -> bool {
    p.len() > 0 && forall|i: int| 0 <= i < p.len() ==> p[i] != ' ' && p[i] != '…'
}

/// `s` holds `p`, whatever the case of its letters.
spec fn holds(s: Seq<char>, p: Seq<char>) -> bool {
    has_part(lowered(s), p)
}

proof fn lemma_at(s: Seq<char>, p: Seq<char>, i: int)
    ensures
        stands_at(s, p, i) <==> 0 <= i && i + p.len() <= s.len() && forall|k: int|
            0 <= k < p.len() ==> #[trigger] s[i + k] == p[k],
{
    if 0 <= i && i + p.len() <= s.len() {
        let w = s.subrange(i, i + p.len());
        if stands_at(s, p, i) {
            assert forall|k: int| 0 <= k < p.len() implies #[trigger] s[i + k] == p[k] by {
                assert(w[k] == p[k]);
            }
        }
        if forall|k: int| 0 <= k < p.len() ==> #[trigger] s[i + k] == p[k] {
            assert(w =~= p) by {
                assert forall|k: int| 0 <= k < p.len() implies w[k] == p[k] by {
                    assert(s[i + k] == p[k]);
                }
            }
        }
    }
}

proof fn lemma_part(s: Seq<char>, from: int, to: int, p: Seq<char>)
    requires
        0 <= from <= to <= s.len(),
        holds(s.subrange(from, to), p),
    ensures
        holds(s, p),
{
    let t = lowered(s.subrange(from, to));
    let i = choose|i: int| stands_at(t, p, i);
    lemma_at(t, p, i);
    assert forall|k: int| 0 <= k < p.len() implies #[trigger] lowered(s)[from + i + k] == p[k] by {
        assert(t[i + k] == p[k]);
    }
    lemma_at(lowered(s), p, from + i);
    assert(stands_at(lowered(s), p, from + i));
}

proof fn lemma_trimmed_start(s: Seq<char>, p: Seq<char>)
    requires
        holds(trimmed_start(s), p),
    ensures
        holds(s, p),
    decreases s.len(),
{
    if s.len() > 0 && crate::text::is_space(s[0]) {
        lemma_trimmed_start(s.skip(1), p);
        assert(s.skip(1) =~= s.subrange(1, s.len() as int));
        lemma_part(s, 1, s.len() as int, p);
    }
}

proof fn lemma_trimmed_end(s: Seq<char>, p: Seq<char>)
    requires
        holds(trimmed_end(s), p),
    ensures
        holds(s, p),
    decreases s.len(),
{
    if s.len() > 0 && crate::text::is_space(s.last()) {
        lemma_trimmed_end(s.drop_last(), p);
        assert(s.drop_last() =~= s.subrange(0, s.len() - 1));
        lemma_part(s, 0, s.len() - 1, p);
    }
}

proof fn lemma_joined(parts: Seq<Seq<char>>, p: Seq<char>)
    requires
        is_word(p),
        holds(joined(parts, " "@), p),
    ensures
        exists|j: int| 0 <= j < parts.len() && holds(#[trigger] parts[j], p),
    decreases parts.len(),
{
    reveal_strlit(" ");
    let s = joined(parts, " "@);
    let l = lowered(s);
    let i = choose|i: int| stands_at(l, p, i);
    lemma_at(l, p, i);
    if parts.len() == 0 {
        assert(l.len() == 0);
    } else if parts.len() == 1 {
        assert(holds(parts[0], p));
    } else {
        let a = joined(parts.drop_last(), " "@);
        let b = parts.last();
        assert(s == a + " "@ + b);
        let n = a.len() as int;
        assert(s[n] == ' ');
        assert(l[n] == ' ');
        if i <= n < i + p.len() {
            assert(l[i + (n - i)] == p[n - i]);
            assert(false);
        } else if n < i {
            let m = lowered(b);
            assert forall|k: int| 0 <= k < p.len() implies #[trigger] m[i - n - 1 + k] == p[k] by {
                assert(l[i + k] == p[k]);
                assert(s[i + k] == b[i + k - n - 1]);
            }
            lemma_at(m, p, i - n - 1);
            assert(stands_at(m, p, i - n - 1));
            assert(holds(parts[parts.len() - 1], p));
        } else {
            let m = lowered(a);
            assert forall|k: int| 0 <= k < p.len() implies #[trigger] m[i + k] == p[k] by {
                assert(l[i + k] == p[k]);
                assert(s[i + k] == a[i + k]);
            }
            lemma_at(m, p, i);
            assert(stands_at(m, p, i));
            lemma_joined(parts.drop_last(), p);
            let j = choose|j: int|
                0 <= j < parts.drop_last().len() && holds(#[trigger] parts.drop_last()[j], p);
            assert(holds(parts[j], p));
        }
    }
}

proof fn lemma_harmless(lines: Seq<Seq<char>>)
    ensures
        forall|j: int| 0 <= j < harmless(lines).len() ==> !mentions_key(#[trigger] harmless(lines)[j]),
    decreases lines.len(),
{
    if lines.len() > 0 {
        lemma_harmless(lines.drop_last());
        let rest = harmless(lines.drop_last());
        assert forall|j: int| 0 <= j < harmless(lines).len() implies !mentions_key(
            #[trigger] harmless(lines)[j],
        ) by {
            if j < rest.len() {
                assert(harmless(lines)[j] == rest[j]);
            }
        }
    }
}

proof fn lemma_one_line(s: Seq<char>, p: Seq<char>)
    requires
        is_word(p),
        forall|j: int|
            0 <= j < harmless(lines_of(s)).len() ==> !holds(#[trigger] harmless(lines_of(s))[j], p),
    ensures
        !holds(one_line(s), p),
{
    if holds(one_line(s), p) {
        let flat = joined(harmless(lines_of(s)), " "@);
        lemma_trimmed_end(trimmed_start(flat), p);
        lemma_trimmed_start(flat, p);
        lemma_joined(harmless(lines_of(s)), p);
    }
}

proof fn lemma_ellipsis(s: Seq<char>, p: Seq<char>)
    requires
        is_word(p),
        holds(s + "…"@, p),
    ensures
        holds(s, p),
{
    reveal_strlit("…");
    let t = s + "…"@;
    let l = lowered(t);
    let i = choose|i: int| stands_at(l, p, i);
    lemma_at(l, p, i);
    let n = s.len() as int;
    assert(t[n] == '…');
    assert(l[n] == '…');
    if i + p.len() > n {
        assert(l[i + (n - i)] == p[n - i]);
        assert(false);
    }
    assert forall|k: int| 0 <= k < p.len() implies #[trigger] lowered(s)[i + k] == p[k] by {
        assert(l[i + k] == p[k]);
        assert(t[i + k] == s[i + k]);
    }
    lemma_at(lowered(s), p, i);
    assert(stands_at(lowered(s), p, i));
}

/// A text without a hyphen holds no word with one.
proof fn lemma_no_hyphen(s: Seq<char>, p: Seq<char>, h: int)
    requires
        0 <= h < p.len(),
        p[h] == '-',
        forall|i: int| 0 <= i < s.len() ==> s[i] != '-',
    ensures
        !holds(s, p),
{
    if holds(s, p) {
        let l = lowered(s);
        let i = choose|i: int| stands_at(l, p, i);
        lemma_at(l, p, i);
        assert(l[i + h] == p[h]);
        assert(s[i + h] != '-');
    }
}

proof fn lemma_byte_head(s: Seq<char>, n: nat)
    ensures
        byte_head(s, n).len() <= s.len(),
        byte_head(s, n) == s.take(byte_head(s, n).len() as int),
        byte_count(byte_head(s, n)) <= n,
    decreases s.len(),
{
    if byte_count(s) <= n || s.len() == 0 {
        assert(s.take(s.len() as int) =~= s);
    } else {
        lemma_byte_head(s.drop_last(), n);
        let k = byte_head(s, n).len() as int;
        assert(s.drop_last().take(k) =~= s.take(k));
    }
}

proof fn lemma_bounded(s: Seq<char>, p: Seq<char>, h: int)
    requires
        is_word(p),
        0 <= h < p.len(),
        p[h] == '-',
        !holds(one_line(s), p),
    ensures
        !holds(bounded_by_bytes(s), p),
        !holds(bounded_by_chars(s), p),
{
    let t = one_line(s);
    reveal_strlit("(no diagnostic output)");
    lemma_no_hyphen("(no diagnostic output)"@, p, h);
    lemma_byte_head(t, STDERR_BOUND as nat);
    let b = byte_head(t, STDERR_BOUND as nat);
    if holds(b + "…"@, p) {
        lemma_ellipsis(b, p);
        assert(b =~= t.subrange(0, b.len() as int));
        lemma_part(t, 0, b.len() as int, p);
    }
    if t.len() > STDERR_BOUND {
        let c = t.take(STDERR_BOUND as int);
        if holds(c + "…"@, p) {
            lemma_ellipsis(c, p);
            assert(c =~= t.subrange(0, STDERR_BOUND as int));
            lemma_part(t, 0, STDERR_BOUND as int, p);
        }
    }
}

/// Whatever a child process writes, what is shown of it mentions no key and no key
/// header, in any case of letters.
pub proof fn shown_text_mentions_no_key(s: Seq<char>)
    ensures
        !mentions_key(bounded_by_bytes(s)),
        !mentions_key(bounded_by_chars(s)),
{
    reveal_strlit("sk-ant-");
    reveal_strlit("x-api-key");
    reveal_strlit("api-key");
    lemma_harmless(lines_of(s));
    let k = harmless(lines_of(s));
    assert forall|j: int| 0 <= j < k.len() implies !holds(#[trigger] k[j], "sk-ant-"@) && !holds(
        k[j],
        "x-api-key"@,
    ) && !holds(k[j], "api-key"@) by {
        assert(!mentions_key(k[j]));
    }
    lemma_one_line(s, "sk-ant-"@);
    lemma_one_line(s, "x-api-key"@);
    lemma_one_line(s, "api-key"@);
    lemma_bounded(s, "sk-ant-"@, 2);
    lemma_bounded(s, "x-api-key"@, 1);
    lemma_bounded(s, "api-key"@, 3);
}

/// What is shown is short: the bound, and an ellipsis where something was cut off.
pub proof fn shown_text_is_bounded(s: Seq<char>)
    ensures
        byte_count(bounded_by_bytes(s)) <= STDERR_BOUND + 3,
        bounded_by_chars(s).len() <= STDERR_BOUND + 1,
{
    reveal_strlit("…");
    reveal_strlit("(no diagnostic output)");
    let t = one_line(s);
    lemma_byte_head(t, STDERR_BOUND as nat);
    let b = byte_head(t, STDERR_BOUND as nat) + "…"@;
    assert(b.drop_last() =~= byte_head(t, STDERR_BOUND as nat));
    assert(b.last() == '…');
    lemma_count_at_most("(no diagnostic output)"@);
}

proof fn lemma_count_at_most(s: Seq<char>)
    ensures
        byte_count(s) <= 4 * s.len(),
    decreases s.len(),
{
    if s.len() > 0 {
        lemma_count_at_most(s.drop_last());
    }
}

} // verus!
