//! Paths, and texts that are taken apart.

use crate::agents::subagents_path;
use crate::laws::words::{begins_with, ends_in, is_free_of};
use crate::paths::{
    before_last_part, file_name_of, is_jsonl, last_part, last_slash, parent_of, path_below,
    without_slashes, without_tail,
};
use crate::text::{
    comes_before, head, is_space, joined_opt, lines_from, lines_of, lower_char, lowered,
    next_newline, non_empty, trimmed, trimmed_end, trimmed_start,
};
use crate::utils::{cleaned, cleaned_from, is_printable, parameters, sequence_at};
use vstd::prelude::*;

verus! {

// ---------------------------------------------------------------------------
// Paths
// ---------------------------------------------------------------------------

/// Whether a path is plain: not empty, and with neither a slash nor a lone dot at its end.
pub open spec fn is_plain_path(p: Seq<char>) -> bool {
    &&& p.len() > 0
    &&& p.last() != '/'
    &&& p.len() > 1 ==> !(p.last() == '.' && p[p.len() - 2] == '/')
}

/// Whether a text is a name: not empty, without slashes, and not one or two dots.
pub open spec fn is_plain_name(n: Seq<char>) -> bool {
    n.len() > 0 && is_free_of(n, '/') && n != seq!['.'] && n != seq!['.', '.']
}

pub(crate) proof fn lemma_last_slash(a: Seq<char>, b: Seq<char>)
    requires
        is_free_of(b, '/'),
    ensures
        last_slash(a + seq!['/'] + b) == a.len(),
    decreases b.len(),
{
    let s = a + seq!['/'] + b;
    if b.len() > 0 {
        assert(s.last() == b.last());
        assert(b.last() == b[b.len() - 1]);
        assert(s.drop_last() =~= a + seq!['/'] + b.drop_last());
        assert(is_free_of(b.drop_last(), '/'));
        lemma_last_slash(a, b.drop_last());
    } else {
        assert(s.last() == '/');
    }
}

proof fn lemma_no_slash(b: Seq<char>)
    requires
        is_free_of(b, '/'),
    ensures
        last_slash(b) == -1,
    decreases b.len(),
{
    if b.len() > 0 {
        assert(b.last() == b[b.len() - 1]);
        lemma_no_slash(b.drop_last());
    }
}

/// What lies in a directory has the directory for its parent, and its own name for a name.
pub proof fn what_lies_in_a_directory(dir: Seq<char>, name: Seq<char>)
    requires
        is_plain_path(dir),
        is_plain_name(name),
    ensures
        path_below(dir, name) == dir + seq!['/'] + name,
        parent_of(dir + seq!['/'] + name) == Some(dir),
        file_name_of(dir + seq!['/'] + name) == Some(name),
        last_part(dir + seq!['/'] + name) == name,
{
    let p = dir + seq!['/'] + name;
    reveal_strlit("/");
    reveal_strlit(".");
    reveal_strlit("..");
    assert("/"@ =~= seq!['/']);
    assert("."@ =~= seq!['.']);
    assert(".."@ =~= seq!['.', '.']);
    lemma_last_slash(dir, name);
    assert(p.last() == name.last());
    assert(name.last() == name[name.len() - 1]);
    if name.len() == 1 {
        assert(p[p.len() - 2] == '/');
        if name.last() == '.' {
            assert(name =~= seq!['.']);
        }
    } else {
        assert(p[p.len() - 2] == name[name.len() - 2]);
    }
    assert(without_tail(p) == p);
    assert(without_slashes(p) == p);
    assert(p.take(dir.len() as int) =~= dir);
    assert(p.skip(dir.len() as int + 1) =~= name);
    assert(without_tail(dir) == dir);
}

/// A name alone is its own name, and lies in the directory that has no name.
pub proof fn names_alone(name: Seq<char>)
    requires
        is_plain_name(name),
    ensures
        file_name_of(name) == Some(name),
        parent_of(name) == Some(Seq::<char>::empty()),
        last_part(name) == name,
        before_last_part(name).len() == 0,
        path_below(Seq::empty(), name) == name,
{
    reveal_strlit(".");
    reveal_strlit("..");
    assert("."@ =~= seq!['.']);
    assert(".."@ =~= seq!['.', '.']);
    lemma_no_slash(name);
    assert(name.last() == name[name.len() - 1]);
    if name.len() > 1 {
        assert(name[name.len() - 2] != '/');
    }
    assert(name.skip(0) =~= name);
}

/// A path from the root stays as it is, wherever it is put.
pub proof fn paths_from_the_root_stay(dir: Seq<char>, rest: Seq<char>)
    ensures
        path_below(dir, seq!['/'] + rest) == seq!['/'] + rest,
{
}

/// Slashes at the end of a path do not count.
pub proof fn slashes_at_the_end_do_not_count(p: Seq<char>)
    ensures
        without_slashes(p + seq!['/']) == without_slashes(p),
        last_part(p + seq!['/']) == last_part(p),
        without_tail(p + seq!['/']) == without_tail(p),
        file_name_of(p + seq!['/']) == file_name_of(p),
        parent_of(p + seq!['/']) == parent_of(p),
        p.len() > 0 ==> without_slashes(p).len() <= p.len(),
{
    assert((p + seq!['/']).drop_last() =~= p);
    lemma_shorter(p);
}

proof fn lemma_shorter(p: Seq<char>)
    ensures
        without_slashes(p).len() <= p.len(),
    decreases p.len(),
{
    if p.len() > 0 && p.last() == '/' {
        lemma_shorter(p.drop_last());
    }
}

/// A transcript is a file with a name before its ending.
pub proof fn transcripts_have_a_name_and_an_ending(name: Seq<char>)
    ensures
        is_jsonl(name + ".jsonl"@) <==> name.len() > 0,
        is_jsonl(name) ==> ends_in(name, ".jsonl"@),
{
    reveal_strlit(".jsonl");
    let s = name + ".jsonl"@;
    if name.len() > 0 {
        assert(s.subrange(s.len() - 6, s.len() as int) =~= ".jsonl"@);
    }
    if is_jsonl(name) {
        assert(name.skip(name.len() - 6) =~= name.subrange(name.len() - 6, name.len() as int));
    }
}

/// The agents' transcripts of a session lie beside its main one, in a directory of the
/// session's id.
pub proof fn agents_lie_beside_the_main_transcript(dir: Seq<char>, file: Seq<char>, id: Seq<char>)
    requires
        is_plain_path(dir),
        is_plain_name(file),
        is_plain_name(id),
    ensures
        subagents_path(dir + seq!['/'] + file, id) == Some(
            dir + seq!['/'] + id + "/subagents"@,
        ),
{
    reveal_strlit("/");
    reveal_strlit("subagents");
    reveal_strlit("/subagents");
    assert("/"@ =~= seq!['/']);
    what_lies_in_a_directory(dir, file);
    what_lies_in_a_directory(dir, id);
    let d = dir + seq!['/'] + id;
    assert(d.last() == id.last());
    assert(id.last() == id[id.len() - 1]);
    assert(path_below(d, "subagents"@) =~= d + "/subagents"@);
}

// ---------------------------------------------------------------------------
// Texts
// ---------------------------------------------------------------------------

/// What is left of a text without the spaces around it has no space at either end, and the
/// text is nothing but spaces besides.
pub proof fn spaces_around_a_text_go(s: Seq<char>, before: Seq<char>, after: Seq<char>)
    requires
        s.len() > 0,
        !is_space(s[0]),
        !is_space(s.last()),
        forall|i: int| 0 <= i < before.len() ==> is_space(#[trigger] before[i]),
        forall|i: int| 0 <= i < after.len() ==> is_space(#[trigger] after[i]),
    ensures
        trimmed(before + s + after) == s,
        trimmed_start(before + s) == s,
        trimmed_end(s + after) == s,
{
    lemma_trimmed_start(before, s + after);
    assert(before + (s + after) =~= before + s + after);
    assert((s + after)[0] == s[0]);
    lemma_trimmed_end(s, after);
    lemma_trimmed_start(before, s);
}

proof fn lemma_trimmed_start(before: Seq<char>, s: Seq<char>)
    requires
        s.len() > 0,
        !is_space(s[0]),
        forall|i: int| 0 <= i < before.len() ==> is_space(#[trigger] before[i]),
    ensures
        trimmed_start(before + s) == s,
    decreases before.len(),
{
    if before.len() > 0 {
        assert((before + s)[0] == before[0]);
        assert((before + s).skip(1) =~= before.skip(1) + s);
        lemma_trimmed_start(before.skip(1), s);
    } else {
        assert(before + s =~= s);
    }
}

proof fn lemma_trimmed_end(s: Seq<char>, after: Seq<char>)
    requires
        s.len() > 0,
        !is_space(s.last()),
        forall|i: int| 0 <= i < after.len() ==> is_space(#[trigger] after[i]),
    ensures
        trimmed_end(s + after) == s,
    decreases after.len(),
{
    if after.len() > 0 {
        assert((s + after).last() == after.last());
        assert(after.last() == after[after.len() - 1]);
        assert((s + after).drop_last() =~= s + after.drop_last());
        lemma_trimmed_end(s, after.drop_last());
    } else {
        assert(s + after =~= s);
    }
}

/// Spaces, tabs and line ends are spaces; letters and digits are not.
pub proof fn what_spaces_are(c: char)
    ensures
        is_space(' ') && is_space('\t') && is_space('\n') && is_space('\r'),
        '!' <= c <= '~' ==> !is_space(c),
{
}

/// A letter from `A` to `Z` becomes its counterpart, and nothing else changes.
pub proof fn letters_are_lowered(c: char, s: Seq<char>, i: int)
    requires
        0 <= i < s.len(),
    ensures
        'A' <= c <= 'Z' ==> 'a' <= lower_char(c) <= 'z' && lower_char(c) as int - 'a' as int == c as int
            - 'A' as int,
        !('A' <= c <= 'Z') ==> lower_char(c) == c,
        lowered(s).len() == s.len(),
        lowered(s)[i] == lower_char(s[i]),
{
}

/// Two parts are put together with the separator between them where both are there; one
/// alone stands as it is, and no part is nothing.
pub proof fn parts_are_put_together(a: Seq<char>, sep: Seq<char>, b: Seq<char>)
    ensures
        joined_opt(Some(a), sep, Some(b)) == Some(a + sep + b),
        joined_opt(Some(a), sep, None) == Some(a),
        joined_opt(None, sep, Some(b)) == Some(b),
        joined_opt(None, sep, None) is None,
        non_empty(a) is None <==> a.len() == 0,
        non_empty(a) matches Some(t) ==> t == a,
{
}

/// The beginning of a text is as long as asked for, or the whole text where that is
/// shorter.
pub proof fn beginnings_of_texts(s: Seq<char>, n: nat)
    ensures
        begins_with(s, head(s, n)),
        s.len() <= n ==> head(s, n) == s,
        s.len() > n ==> head(s, n).len() == n,
{
}

// ---------------------------------------------------------------------------
// What is printed
// ---------------------------------------------------------------------------

/// A text without control characters is printed as it is.
pub proof fn ordinary_texts_are_printed(s: Seq<char>)
    requires
        forall|i: int| 0 <= i < s.len() ==> ' ' <= #[trigger] s[i] <= '~',
    ensures
        cleaned(s) == s,
{
    lemma_printed_from(s, 0);
    assert(s.skip(0) =~= s);
}

proof fn lemma_printed_from(s: Seq<char>, i: int)
    requires
        0 <= i <= s.len(),
        forall|k: int| 0 <= k < s.len() ==> ' ' <= #[trigger] s[k] <= '~',
    ensures
        cleaned_from(s, i) == s.skip(i),
    decreases s.len() - i,
{
    if i < s.len() {
        lemma_printed_from(s, i + 1);
        assert(seq![s[i]] + s.skip(i + 1) =~= s.skip(i));
    } else {
        assert(s.skip(i) =~= Seq::empty());
    }
}

/// Which characters are printed: those that are no control characters, tabs and line ends.
pub proof fn which_characters_are_printed(c: char)
    ensures
        ' ' <= c <= '~' || c as u32 >= 0xa0 ==> is_printable(c),
        c == '\t' || c == '\n' || c == '\r' ==> is_printable(c),
        c as u32 <= 8 || 14 <= c as u32 <= 31 || 127 <= c as u32 <= 0x9f ==> !is_printable(c),
        c as u32 == 11 || c as u32 == 12 ==> !is_printable(c),
{
}

/// What is printed of a text holds no control characters.
pub proof fn no_control_characters_are_printed(s: Seq<char>, i: int)
    requires
        0 <= i < cleaned(s).len(),
    ensures
        cleaned(s)[i] as u32 != 0x1b,
        is_printable(cleaned(s)[i]),
{
    lemma_all_printable(s, 0, i);
}

proof fn lemma_all_printable(s: Seq<char>, from: int, i: int)
    requires
        0 <= i < cleaned_from(s, from).len(),
    ensures
        is_printable(cleaned_from(s, from)[i]),
    decreases s.len() - from,
{
    if 0 <= from < s.len() {
        if sequence_at(s, from) > 0 {
            lemma_all_printable(s, from + sequence_at(s, from), i);
        } else if is_printable(s[from]) {
            if i > 0 {
                lemma_all_printable(s, from + 1, i - 1);
            }
        } else {
            lemma_all_printable(s, from + 1, i);
        }
    }
}

/// A colour code in front of a text is not printed, whatever its numbers.
pub proof fn colour_codes_are_not_printed(digits: Seq<char>, letter: char, s: Seq<char>)
    requires
        forall|i: int|
            0 <= i < digits.len() ==> ('0' <= #[trigger] digits[i] <= '9' || digits[i] == ';'),
        'a' <= letter <= 'z' || 'A' <= letter <= 'Z',
    ensures
        cleaned(seq!['\u{1b}', '['] + digits + seq![letter] + s) == cleaned(s),
{
    let code = seq!['\u{1b}', '['] + digits + seq![letter];
    let t = code + s;
    lemma_parameters(t, 2, digits.len() as int + 2);
    assert(t[0] == '\u{1b}' && t[1] == '[' && t[digits.len() as int + 2] == letter);
    assert(sequence_at(t, 0) == code.len());
    lemma_shifted(code, s, 0);
}

proof fn lemma_parameters(t: Seq<char>, i: int, e: int)
    requires
        0 <= i <= e < t.len(),
        forall|k: int| i <= k < e ==> ('0' <= #[trigger] t[k] <= '9' || t[k] == ';'),
        'a' <= t[e] <= 'z' || 'A' <= t[e] <= 'Z',
    ensures
        parameters(t, i) == e - i,
    decreases e - i,
{
    if i < e {
        lemma_parameters(t, i + 1, e);
    }
}

proof fn lemma_same_parameters(front: Seq<char>, s: Seq<char>, i: int)
    requires
        0 <= i,
    ensures
        parameters(front + s, front.len() + i) == parameters(s, i),
    decreases s.len() - i,
{
    if i < s.len() {
        lemma_same_parameters(front, s, i + 1);
        assert((front + s)[front.len() + i] == s[i]);
    }
}

proof fn lemma_shifted(front: Seq<char>, s: Seq<char>, i: int)
    requires
        0 <= i,
    ensures
        cleaned_from(front + s, front.len() + i) == cleaned_from(s, i),
    decreases s.len() - i,
{
    if i < s.len() {
        let t = front + s;
        let n = front.len() as int;
        lemma_same_parameters(front, s, i + 2);
        assert(t[n + i] == s[i]);
        assert(i + 1 < s.len() ==> t[n + i + 1] == s[i + 1]);
        let e = i + 2 + parameters(s, i + 2);
        assert(e < s.len() ==> t[n + e] == s[e]);
        assert(sequence_at(t, n + i) == sequence_at(s, i));
        lemma_shifted(front, s, i + 1);
        if sequence_at(s, i) > 0 {
            lemma_shifted(front, s, i + sequence_at(s, i));
        }
    }
}

/// A text is taken apart at its line ends, with or without a carriage return before them; a
/// text without any is one line, and nothing is none.
pub proof fn texts_are_taken_apart_at_line_ends(line: Seq<char>, rest: Seq<char>)
    requires
        is_free_of(line, '\n'),
    ensures
        line.len() > 0 ==> lines_of(line) == seq![line],
        lines_of(Seq::empty()).len() == 0,
        line.len() == 0 || line.last() != '\r' ==> lines_of(line + seq!['\n'] + rest) == seq![line]
            + lines_of(rest),
        is_free_of(line, '\r') ==> lines_of(line + seq!['\r', '\n'] + rest) == seq![line]
            + lines_of(rest),
{
    lemma_no_line_end(line, 0);
    assert(line.subrange(0, line.len() as int) =~= line);
    if line.len() > 0 {
        assert(lines_of(line) =~= seq![line]);
    }
    let a = line + seq!['\n'];
    lemma_first_line_end(a + rest, 0, line.len() as int);
    assert((a + rest).subrange(0, line.len() as int) =~= line);
    lemma_lines_shifted(a, rest, 0);
    let b = line + seq!['\r', '\n'];
    lemma_first_line_end(b + rest, 0, line.len() + 1int);
    assert((b + rest).subrange(0, line.len() + 1int) =~= line.push('\r'));
    assert(line.push('\r').drop_last() =~= line);
    lemma_lines_shifted(b, rest, 0);
}

proof fn lemma_first_line_end(s: Seq<char>, i: int, e: int)
    requires
        0 <= i <= e < s.len(),
        s[e] == '\n',
        forall|k: int| i <= k < e ==> s[k] != '\n',
    ensures
        next_newline(s, i) == e,
    decreases e - i,
{
    if i < e {
        lemma_first_line_end(s, i + 1, e);
    }
}

proof fn lemma_line_ends_shifted(front: Seq<char>, s: Seq<char>, i: int)
    requires
        0 <= i <= s.len(),
    ensures
        next_newline(front + s, front.len() + i) == front.len() + next_newline(s, i),
        i <= next_newline(s, i) <= s.len(),
    decreases s.len() - i,
{
    if i < s.len() {
        assert((front + s)[front.len() + i] == s[i]);
        lemma_line_ends_shifted(front, s, i + 1);
    }
}

proof fn lemma_lines_shifted(front: Seq<char>, s: Seq<char>, i: int)
    requires
        0 <= i <= s.len(),
    ensures
        lines_from(front + s, front.len() + i) == lines_from(s, i),
    decreases s.len() - i,
{
    if i < s.len() {
        lemma_line_ends_shifted(front, s, i);
        let e = next_newline(s, i);
        let n = front.len() as int;
        assert((front + s).subrange(n + i, n + e) =~= s.subrange(i, e));
        if e < s.len() {
            lemma_lines_shifted(front, s, e + 1);
        }
    }
}

proof fn lemma_no_line_end(s: Seq<char>, i: int)
    requires
        is_free_of(s, '\n'),
        0 <= i <= s.len(),
    ensures
        next_newline(s, i) == s.len(),
    decreases s.len() - i,
{
    if i < s.len() {
        lemma_no_line_end(s, i + 1);
    }
}

/// Texts are in the order of the first characters in which they differ, and one that
/// another goes on from comes before it.
pub proof fn texts_are_in_order_by_their_characters(
    p: Seq<char>,
    c: char,
    d: char,
    a: Seq<char>,
    b: Seq<char>,
)
    requires
        c != d,
    ensures
        comes_before(p + seq![c] + a, p + seq![d] + b) <==> c < d,
        comes_before(p, p + seq![c] + a),
        !comes_before(p + seq![c] + a, p),
        !comes_before(p, p),
    decreases p.len(),
{
    let x = p + seq![c] + a;
    let y = p + seq![d] + b;
    if p.len() > 0 {
        let t = p.skip(1);
        texts_are_in_order_by_their_characters(t, c, d, a, b);
        assert(x.skip(1) =~= t + seq![c] + a);
        assert(y.skip(1) =~= t + seq![d] + b);
        assert(x[0] == p[0] && y[0] == p[0]);
    } else {
        assert(x[0] == c && y[0] == d);
    }
}

} // verus!
