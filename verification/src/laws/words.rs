//! The words in which the laws speak of texts.

use crate::text::{byte_count, byte_head, joined, left, right};
use vstd::prelude::*;

verus! {

/// Whether a text begins with another.
pub open spec fn begins_with(s: Seq<char>, p: Seq<char>) -> bool {
    p.len() <= s.len() && s.take(p.len() as int) =~= p
}

/// Whether a text ends in another.
pub open spec fn ends_in(s: Seq<char>, p: Seq<char>) -> bool {
    p.len() <= s.len() && s.skip(s.len() - p.len()) =~= p
}

/// Whether a text stands in another, from a place on.
pub open spec fn is_found_at(s: Seq<char>, p: Seq<char>, i: int) -> bool {
    0 <= i && i + p.len() <= s.len() && s.subrange(i, i + p.len()) =~= p
}

/// Whether a text stands in another.
pub open spec fn is_found(s: Seq<char>, p: Seq<char>) -> bool {
    exists|i: int| #[trigger] is_found_at(s, p, i)
}

/// Whether a text is free of a character.
pub open spec fn is_free_of(s: Seq<char>, c: char) -> bool {
    forall|i: int| 0 <= i < s.len() ==> #[trigger] s[i] != c
}

/// A text stands where it was put.
pub(crate) proof fn lemma_found(before: Seq<char>, p: Seq<char>, after: Seq<char>)
    ensures
        is_found(before + p + after, p),
{
    assert(is_found_at(before + p + after, p, before.len() as int));
}

/// What follows the last of some characters is told by the whole.
pub(crate) proof fn lemma_last_mark(
    a: Seq<char>,
    x: Seq<char>,
    b: Seq<char>,
    y: Seq<char>,
    mark: char,
)
    requires
        is_free_of(x, mark),
        is_free_of(y, mark),
        a + seq![mark] + x == b + seq![mark] + y,
    ensures
        x == y,
{
    let one = a + seq![mark] + x;
    let other = b + seq![mark] + y;
    if x.len() < y.len() {
        let i = one.len() - 1 - x.len();
        assert(one[i] == mark);
        assert(other[i] == y[i - b.len() - 1]);
    } else if y.len() < x.len() {
        let i = one.len() - 1 - y.len();
        assert(other[i] == mark);
        assert(one[i] == x[i - a.len() - 1]);
    }
    assert(one.skip(one.len() - x.len()) =~= x);
    assert(other.skip(other.len() - y.len()) =~= y);
}

/// Where a part begins in a text of parts with something of `gap` characters between them.
pub open spec fn place(parts: Seq<Seq<char>>, gap: nat, i: int) -> int
    decreases i,
{
    if i <= 0 {
        0
    } else {
        place(parts, gap, i - 1) + parts[i - 1].len() + gap
    }
}

/// Parts that are joined stand in their order, each at its place, with the separator
/// between any two, and nothing else.
pub proof fn joined_parts_stand_in_order(parts: Seq<Seq<char>>, sep: Seq<char>, i: int)
    requires
        0 <= i < parts.len(),
    ensures
        is_found_at(joined(parts, sep), parts[i], place(parts, sep.len(), i)),
        i + 1 < parts.len() ==> is_found_at(
            joined(parts, sep),
            sep,
            place(parts, sep.len(), i) + parts[i].len(),
        ),
        joined(parts, sep).len() + sep.len() == place(parts, sep.len(), parts.len() as int),
    decreases parts.len(),
{
    let n = parts.len();
    let front = parts.drop_last();
    reveal_with_fuel(place, 2);
    reveal_with_fuel(joined, 2);
    if n > 1 {
        let whole = joined(parts, sep);
        let before = joined(front, sep);
        assert(whole == before + sep + parts.last());
        joined_parts_stand_in_order(front, sep, n - 2);
        lemma_place(parts, sep.len(), n - 1);
        if i < n - 1 {
            joined_parts_stand_in_order(front, sep, i);
            lemma_place(parts, sep.len(), i);
            let a = place(parts, sep.len(), i);
            assert(whole.subrange(a, a + parts[i].len()) =~= before.subrange(a, a + front[i].len()));
            if i + 1 < n - 1 {
                let b = a + parts[i].len();
                assert(whole.subrange(b, b + sep.len()) =~= before.subrange(b, b + sep.len()));
            }
        }
    }
}

proof fn lemma_place(parts: Seq<Seq<char>>, gap: nat, i: int)
    requires
        0 <= i < parts.len(),
    ensures
        place(parts.drop_last(), gap, i) == place(parts, gap, i),
    decreases i,
{
    if i > 0 {
        lemma_place(parts, gap, i - 1);
    }
}

/// A text that is padded stands whole at one end, with nothing but spaces at the other, and
/// is as wide as it should be, or as it is itself where it is wider.
pub proof fn padding_is_spaces(s: Seq<char>, width: nat, i: int)
    ensures
        begins_with(left(s, width), s),
        ends_in(right(s, width), s),
        left(s, width).len() == (if s.len() < width {
            width
        } else {
            s.len()
        }),
        right(s, width).len() == left(s, width).len(),
        s.len() <= i < left(s, width).len() ==> left(s, width)[i] == ' ',
        0 <= i < right(s, width).len() - s.len() ==> right(s, width)[i] == ' ',
{
}

/// The beginning of a text within some bytes is one of the text's beginnings, takes no more
/// bytes than allowed, and is the whole text where that takes no more.
pub proof fn beginnings_keep_within_their_bytes(s: Seq<char>, n: nat)
    ensures
        begins_with(s, byte_head(s, n)),
        byte_count(byte_head(s, n)) <= n,
        byte_head(s, n).len() <= n,
        byte_count(s) <= n ==> byte_head(s, n) == s,
    decreases s.len(),
{
    lemma_bytes(byte_head(s, n));
    if byte_count(s) > n && s.len() > 0 {
        beginnings_keep_within_their_bytes(s.drop_last(), n);
        let h = byte_head(s.drop_last(), n);
        assert(s.take(h.len() as int) =~= s.drop_last().take(h.len() as int));
    }
}

proof fn lemma_bytes(s: Seq<char>)
    ensures
        byte_count(s) >= s.len(),
    decreases s.len(),
{
    if s.len() > 0 {
        lemma_bytes(s.drop_last());
    }
}

/// The beginning of a text within some bytes is the longest that they hold: one character
/// more would take more.
pub proof fn beginnings_are_as_long_as_they_can_be(s: Seq<char>, n: nat)
    ensures
        byte_head(s, n).len() < s.len() ==> byte_count(
            s.take(byte_head(s, n).len() as int + 1),
        ) > n,
    decreases s.len(),
{
    if byte_count(s) > n && s.len() > 0 {
        let front = s.drop_last();
        beginnings_are_as_long_as_they_can_be(front, n);
        beginnings_keep_within_their_bytes(front, n);
        let k = byte_head(front, n).len() as int;
        if k < front.len() {
            assert(s.take(k + 1) =~= front.take(k + 1));
        } else {
            assert(s.take(k + 1) =~= s);
        }
    }
}

/// A label and a value stand at the two ends of their row.
pub(crate) proof fn lemma_labelled(row: Seq<char>, front: Seq<char>, value: Seq<char>, label: Seq<char>, end: Seq<char>)
    requires
        row == front + value,
        begins_with(front, label),
        ends_in(front, end),
    ensures
        begins_with(row, label),
        ends_in(row, end + value),
{
    assert(row.take(label.len() as int) =~= front.take(label.len() as int));
    assert forall|i: int| 0 <= i < end.len() implies row[front.len() - end.len() + i] == end[i] by {
        assert(front.skip(front.len() - end.len())[i] == end[i]);
    }
    assert(row.skip(row.len() - (end + value).len()) =~= end + value);
}

/// A text at the left of its column stands where the column begins.
pub(crate) proof fn lemma_left_column(parts: Seq<Seq<char>>, i: int, s: Seq<char>, width: nat, at: int)
    requires
        0 <= i < parts.len(),
        parts[i] == left(s, width),
        place(parts, 1, i) == at,
    ensures
        begins_with(joined(parts, " "@).skip(at), s),
{
    reveal_strlit(" ");
    joined_parts_stand_in_order(parts, " "@, i);
    let line = joined(parts, " "@);
    let cell = left(s, width);
    assert(line.subrange(at, at + cell.len()) == cell);
    assert forall|k: int| 0 <= k < s.len() implies line.skip(at)[k] == s[k] by {
        assert(line.subrange(at, at + cell.len())[k] == cell[k]);
    }
}

/// A text at the right of its column ends where the column ends, and a space stands before
/// it: one of the column's own, or the one between the columns.
pub(crate) proof fn lemma_right_column_and(
    parts: Seq<Seq<char>>,
    i: int,
    s: Seq<char>,
    width: nat,
    tail: Seq<char>,
    at: int,
)
    requires
        0 < i < parts.len(),
        parts[i] =~= right(s, width) + tail,
        s.len() <= width,
        place(parts, 1, i) == at,
    ensures
        ends_in(joined(parts, " "@).take(at + width + tail.len()), " "@ + s + tail),
        at + width + tail.len() <= joined(parts, " "@).len(),
{
    reveal_strlit(" ");
    joined_parts_stand_in_order(parts, " "@, i);
    joined_parts_stand_in_order(parts, " "@, i - 1);
    reveal_with_fuel(place, 2);
    let line = joined(parts, " "@);
    let cell = right(s, width) + tail;
    let n = width + tail.len();
    assert(line.subrange(at, at + n) == cell);
    assert(line.subrange(at - 1, at)[0] == line[at - 1]);
    assert(line[at - 1] == ' ');
    let upto = line.take(at + n);
    let k = at + width - s.len();
    assert forall|j: int| 0 <= j < s.len() + tail.len() implies upto[k + j] == (s + tail)[j] by {
        assert(line[k + j] == line.subrange(at, at + n)[k + j - at]);
    }
    if s.len() < width {
        assert(line[k - 1] == line.subrange(at, at + n)[k - 1 - at]);
    }
    assert(upto[k - 1] == ' ');
    let wanted = " "@ + s + tail;
    assert forall|j: int| 0 <= j < wanted.len() implies upto.skip(k - 1)[j] == wanted[j] by {
        if j > 0 {
            assert(wanted[j] == (s + tail)[j - 1]);
            assert(upto[k + (j - 1)] == (s + tail)[j - 1]);
        }
    }
}

pub(crate) proof fn lemma_right_column(parts: Seq<Seq<char>>, i: int, s: Seq<char>, width: nat, at: int)
    requires
        0 < i < parts.len(),
        parts[i] == right(s, width),
        s.len() <= width,
        place(parts, 1, i) == at,
    ensures
        ends_in(joined(parts, " "@).take(at + width), " "@ + s),
        at + width <= joined(parts, " "@).len(),
{
    lemma_right_column_and(parts, i, s, width, Seq::empty(), at);
    assert(" "@ + s + Seq::<char>::empty() =~= " "@ + s);
}

} // verus!
