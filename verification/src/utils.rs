//! Texts from outside, made fit to print.

use crate::text::{chars_of, concat2, has_prefix, is_digit, opt_str, starts_with, text_of};
use vstd::prelude::*;

verus! {

/// The character that escape sequences begin with.
pub const ESCAPE: char = '\u{1b}';

/// Whether a character may be printed: no control character but tab and line ends.
pub open spec fn is_printable(c: char) -> bool {
    let n = c as u32;
    ||| 0x20 <= n <= 0x7e
    ||| n > 0x9f
    ||| n == 9
    ||| n == 10
    ||| n == 13
}

fn printable(c: char) -> (r: bool)
    ensures
        r == is_printable(c),
{
    let n: u32 = c as u32;
    (0x20 <= n && n <= 0x7e) || n > 0x9f || n == 9 || n == 10 || n == 13
}

/// Whether a character may stand among the parameters of an escape sequence.
pub open spec fn is_parameter(c: char) -> bool {
    is_digit(c) || c == ';'
}

pub open spec fn is_letter(c: char) -> bool {
    'a' <= c <= 'z' || 'A' <= c <= 'Z'
}

/// How many characters from `i` on are parameters.
pub open spec fn parameters(s: Seq<char>, i: int) -> nat
    decreases s.len() - i,
{
    if 0 <= i < s.len() && is_parameter(s[i]) {
        1 + parameters(s, i + 1)
    } else {
        0
    }
}

/// How long the escape sequence at `i` is; zero where there is none. A sequence is the
/// escape character, a bracket, parameters, and a letter.
pub open spec fn sequence_at(s: Seq<char>, i: int) -> nat {
    let end = i + 2 + parameters(s, i + 2);
    if 0 <= i && i + 1 < s.len() && s[i] == ESCAPE && s[i + 1] == '[' && end < s.len() && is_letter(
        s[end],
    ) {
        (end - i + 1) as nat
    } else {
        0
    }
}

/// What of a text is printed, from `i` on: neither escape sequences nor control
/// characters.
pub open spec fn cleaned_from(s: Seq<char>, i: int) -> Seq<char>
    decreases s.len() - i,
{
    if i < 0 || i >= s.len() {
        Seq::empty()
    } else if sequence_at(s, i) > 0 {
        cleaned_from(s, i + sequence_at(s, i))
    } else if is_printable(s[i]) {
        seq![s[i]] + cleaned_from(s, i + 1)
    } else {
        cleaned_from(s, i + 1)
    }
}

/// What of a text is printed.
pub open spec fn cleaned(s: Seq<char>) -> Seq<char> {
    cleaned_from(s, 0)
}

fn sequence_length(c: &Vec<char>, i: usize) -> (r: usize)
    requires
        i < c@.len(),
    ensures
        r == sequence_at(c@, i as int),
        i + r <= c@.len(),
{
    let n: usize = c.len();
    if n - i < 2 || c[i] != ESCAPE || c[i + 1] != '[' {
        return 0;
    }
    let mut k: usize = i + 2;
    while k < n && ((c[k] >= '0' && c[k] <= '9') || c[k] == ';')
        invariant
            n == c@.len(),
            i + 2 <= k <= n,
            parameters(c@, i + 2) == (k - (i + 2)) + parameters(c@, k as int),
        decreases n - k,
    {
        k += 1;
    }
    if k < n && ((c[k] >= 'a' && c[k] <= 'z') || (c[k] >= 'A' && c[k] <= 'Z')) {
        k - i + 1
    } else {
        0
    }
}

/// A text that can be printed as it is: without escape sequences and control characters.
pub fn sanitize_for_terminal(s: &str) -> (r: String)
    ensures
        r@ == cleaned(s@),
{
    let c = chars_of(s);
    let n: usize = c.len();
    let mut out = String::new();
    let mut i: usize = 0;
    proof {
        assert(out@ + cleaned_from(s@, 0) =~= cleaned_from(s@, 0));
    }
    while i < n
        invariant
            n == c@.len(),
            c@ == s@,
            i <= n,
            out@ + cleaned_from(s@, i as int) == cleaned(s@),
        decreases n - i,
    {
        let skip: usize = sequence_length(&c, i);
        if skip > 0 {
            i += skip;
        } else {
            let ghost before = out@;
            if printable(c[i]) {
                out.push(c[i]);
                proof {
                    assert(out@ + cleaned_from(s@, i + 1) =~= before + (seq![s@[i as int]]
                        + cleaned_from(s@, i + 1)));
                }
            }
            i += 1;
        }
    }
    proof {
        assert(out@ + cleaned_from(s@, n as int) =~= out@);
    }
    out
}

/// A printed text holds only printable characters, hence no escape sequence, whatever it
/// was made from; and a text that holds no others is printed as it is.
pub proof fn printed_text_is_harmless(s: Seq<char>)
    ensures
        forall|i: int| 0 <= i < cleaned(s).len() ==> is_printable(#[trigger] cleaned(s)[i]),
        (forall|i: int| 0 <= i < s.len() ==> is_printable(#[trigger] s[i])) ==> cleaned(s) == s,
{
    lemma_cleaned_from(s, 0);
    assert(s.skip(0) =~= s);
}

proof fn lemma_cleaned_from(s: Seq<char>, i: int)
    requires
        0 <= i,
    ensures
        forall|k: int|
            0 <= k < cleaned_from(s, i).len() ==> is_printable(#[trigger] cleaned_from(s, i)[k]),
        i <= s.len() && (forall|k: int| 0 <= k < s.len() ==> is_printable(#[trigger] s[k]))
            ==> cleaned_from(s, i) == s.skip(i),
    decreases s.len() - i,
{
    if i < s.len() {
        if sequence_at(s, i) > 0 {
            lemma_cleaned_from(s, i + sequence_at(s, i));
            assert(cleaned_from(s, i) == cleaned_from(s, i + sequence_at(s, i)));
            assert(!is_printable(s[i]));
        } else {
            lemma_cleaned_from(s, i + 1);
            let rest = cleaned_from(s, i + 1);
            if is_printable(s[i]) {
                let all = cleaned_from(s, i);
                assert forall|k: int| 0 <= k < all.len() implies is_printable(#[trigger] all[k]) by {
                    if k > 0 {
                        assert(all[k] == rest[k - 1]);
                    }
                }
                assert(s.skip(i) =~= seq![s[i]] + s.skip(i + 1));
            } else {
                assert(cleaned_from(s, i) == rest);
            }
        }
    } else if i == s.len() {
        assert(s.skip(i) =~= Seq::<char>::empty());
    }
}

/// A path with the home directory at its beginning written as a tilde.
pub open spec fn shortened(path: Seq<char>, home: Option<Seq<char>>) -> Seq<char> {
    match home {
        Some(h) => if h.len() > 0 && has_prefix(path, h) {
            "~"@ + path.skip(h.len() as int)
        } else {
            path
        },
        None => path,
    }
}

/// A path with the home directory at its beginning written as a tilde.
pub fn shorten_path(path: &str, home: Option<&str>) -> (r: String)
    ensures
        r@ == shortened(path@, opt_str(home)),
{
    match home {
        Some(h) => {
            if !h.is_empty() && starts_with(path, h) {
                let c = chars_of(path);
                let k: usize = chars_of(h).len();
                let n: usize = c.len();
                proof {
                    assert(c@.subrange(k as int, n as int) =~= path@.skip(k as int));
                }
                concat2("~", text_of(&c, k, n).as_str())
            } else {
                path.to_owned()
            }
        },
        None => path.to_owned(),
    }
}

} // verus!
