//! Filling in a template.
//!
//! `{name}` stands for a variable and `{sep}` for the separator. A separator is written only
//! between two parts of a line that are there: one in front of an empty variable is left
//! out.

use crate::config::LayoutConfig;
use crate::layout::presets::PRESET_DEFAULT;
use crate::layout::variables::texts;
use crate::text::{chars_of, concat2, concat3, same, text_of};
use crate::text_map::TextMap;
use vstd::prelude::*;

verus! {

/// A part of a filled template.
pub enum Piece {
    Text(Seq<char>),
    Separator,
}

/// Where the brace that was opened before `i` is closed; absent where it is not, or where
/// another one is opened first.
pub open spec fn closing(t: Seq<char>, i: int) -> Option<int>
    decreases t.len() - i,
{
    if i < 0 || i >= t.len() || t[i] == '{' {
        None
    } else if t[i] == '}' {
        Some(i)
    } else {
        closing(t, i + 1)
    }
}

proof fn lemma_closing(t: Seq<char>, i: int)
    ensures
        closing(t, i) matches Some(j) ==> i <= j < t.len(),
    decreases t.len() - i,
{
    if 0 <= i < t.len() && t[i] != '{' && t[i] != '}' {
        lemma_closing(t, i + 1);
    }
}

/// What stands for a name.
pub open spec fn piece_of(
    name: Seq<char>,
    vars: Map<Seq<char>, Seq<char>>,
    show_unknown: bool,
) -> Piece {
    if name == "sep"@ {
        Piece::Separator
    } else if vars.dom().contains(name) {
        Piece::Text(vars[name])
    } else if show_unknown {
        Piece::Text("{"@ + name + "}"@)
    } else {
        Piece::Text(Seq::empty())
    }
}

/// The parts of a template, filled in, from `i` on.
pub open spec fn pieces_from(
    t: Seq<char>,
    i: int,
    vars: Map<Seq<char>, Seq<char>>,
    show_unknown: bool,
) -> Seq<Piece>
    decreases t.len() - i,
    via pieces_from_decreases
{
    if i < 0 || i >= t.len() {
        Seq::empty()
    } else {
        match closing(t, i + 1) {
            Some(j) => if t[i] == '{' {
                seq![piece_of(t.subrange(i + 1, j), vars, show_unknown)] + pieces_from(
                    t,
                    j + 1,
                    vars,
                    show_unknown,
                )
            } else {
                seq![Piece::Text(seq![t[i]])] + pieces_from(t, i + 1, vars, show_unknown)
            },
            None => seq![Piece::Text(seq![t[i]])] + pieces_from(t, i + 1, vars, show_unknown),
        }
    }
}

#[via_fn]
proof fn pieces_from_decreases(
    t: Seq<char>,
    i: int,
    vars: Map<Seq<char>, Seq<char>>,
    show_unknown: bool,
) {
    lemma_closing(t, i + 1);
}

/// What has been written so far.
pub struct Written {
    pub text: Seq<char>,
    /// Something stands in the line already.
    pub begun: bool,
    /// A separator is to be written before the next part.
    pub pending: bool,
}

/// What has been written after one more part.
pub open spec fn write(w: Written, p: Piece, sep: Seq<char>) -> Written {
    match p {
        Piece::Separator => Written { pending: w.begun, ..w },
        Piece::Text(s) => if s.len() == 0 {
            w
        } else if s == seq!['\n'] {
            Written { text: w.text + s, begun: false, pending: false }
        } else {
            Written {
                text: if w.pending {
                    w.text + sep + s
                } else {
                    w.text + s
                },
                begun: true,
                pending: false,
            }
        },
    }
}

/// What has been written after some parts.
pub open spec fn written(w: Written, pieces: Seq<Piece>, sep: Seq<char>) -> Written
    decreases pieces.len(),
{
    if pieces.len() == 0 {
        w
    } else {
        written(write(w, pieces[0], sep), pieces.skip(1), sep)
    }
}

/// Nothing written yet.
pub open spec fn blank() -> Written {
    Written { text: Seq::empty(), begun: false, pending: false }
}

/// A template, filled in.
pub open spec fn filled(
    t: Seq<char>,
    vars: Map<Seq<char>, Seq<char>>,
    sep: Seq<char>,
    show_unknown: bool,
) -> Seq<char> {
    written(blank(), pieces_from(t, 0, vars, show_unknown), sep).text
}

/// Whether a template names a variable.
pub open spec fn mentions(t: Seq<char>, name: Seq<char>) -> bool {
    exists|i: int, j: int| #[trigger] names_at(t, i, j, name)
}

/// Whether a template names a variable between a brace at `i` and one at `j`.
pub open spec fn names_at(t: Seq<char>, i: int, j: int, name: Seq<char>) -> bool {
    0 <= i < t.len() && t[i] == '{' && closing(t, i + 1) == Some(j) && name == t.subrange(i + 1, j)
}

/// Whether two collections of variables give a name the same value, or both none.
pub open spec fn agree_on(
    a: Map<Seq<char>, Seq<char>>,
    b: Map<Seq<char>, Seq<char>>,
    name: Seq<char>,
) -> bool {
    a.dom().contains(name) == b.dom().contains(name) && (a.dom().contains(name) ==> a[name]
        == b[name])
}

proof fn lemma_same_pieces(
    t: Seq<char>,
    i: int,
    a: Map<Seq<char>, Seq<char>>,
    b: Map<Seq<char>, Seq<char>>,
    show_unknown: bool,
)
    requires
        forall|name: Seq<char>| mentions(t, name) ==> #[trigger] agree_on(a, b, name),
    ensures
        pieces_from(t, i, a, show_unknown) == pieces_from(t, i, b, show_unknown),
    decreases t.len() - i,
{
    if 0 <= i < t.len() {
        lemma_closing(t, i + 1);
        match closing(t, i + 1) {
            Some(j) => {
                if t[i] == '{' {
                    let name = t.subrange(i + 1, j);
                    assert(names_at(t, i, j, name));
                    assert(mentions(t, name));
                    assert(agree_on(a, b, name));
                    lemma_same_pieces(t, j + 1, a, b, show_unknown);
                } else {
                    lemma_same_pieces(t, i + 1, a, b, show_unknown);
                }
            },
            None => lemma_same_pieces(t, i + 1, a, b, show_unknown),
        }
    }
}

/// A filled template depends on no variable but those that it names.
pub proof fn only_named_variables_matter(
    t: Seq<char>,
    a: Map<Seq<char>, Seq<char>>,
    b: Map<Seq<char>, Seq<char>>,
    sep: Seq<char>,
    show_unknown: bool,
)
    requires
        forall|name: Seq<char>| mentions(t, name) ==> #[trigger] agree_on(a, b, name),
    ensures
        filled(t, a, sep, show_unknown) == filled(t, b, sep, show_unknown),
{
    lemma_same_pieces(t, 0, a, b, show_unknown);
}

fn closing_at(c: &Vec<char>, from: usize) -> (r: Option<usize>)
    requires
        from <= c@.len(),
    ensures
        match r {
            Some(j) => closing(c@, from as int) == Some(j as int) && from <= j < c@.len(),
            None => closing(c@, from as int) is None,
        },
{
    let n: usize = c.len();
    let mut i: usize = from;
    while i < n && c[i] != '{' && c[i] != '}'
        invariant
            n == c@.len(),
            from <= i <= n,
            closing(c@, from as int) == closing(c@, i as int),
        decreases n - i,
    {
        i += 1;
    }
    if i < n && c[i] == '}' {
        Some(i)
    } else {
        None
    }
}

/// The writer: what has been written, and what is to come before the next part.
struct Writer {
    text: String,
    begun: bool,
    pending: bool,
}

impl Writer {
    spec fn state(self) -> Written {
        Written { text: self.text@, begun: self.begun, pending: self.pending }
    }

    fn put(&mut self, s: &str, sep: &str)
        ensures
            final(self).state() == write(old(self).state(), Piece::Text(s@), sep@),
    {
        if s.is_empty() {
            return;
        }
        if same(s, "\n") {
            let text = concat2(self.text.as_str(), s);
            proof {
                reveal_strlit("\n");
                assert("\n"@ =~= seq!['\n']);
            }
            self.text = text;
            self.begun = false;
            self.pending = false;
            return;
        }
        proof {
            reveal_strlit("\n");
            assert("\n"@ =~= seq!['\n']);
        }
        let text = if self.pending {
            concat3(self.text.as_str(), sep, s)
        } else {
            concat2(self.text.as_str(), s)
        };
        self.text = text;
        self.begun = true;
        self.pending = false;
    }

    /// Write what stands for a name.
    fn put_named(&mut self, name: &str, vars: &TextMap<String>, sep: &str, show_unknown: bool)
        ensures
            final(self).state() == write(
                old(self).state(),
                piece_of(name@, texts(vars@), show_unknown),
                sep@,
            ),
    {
        if same(name, "sep") {
            self.pending = self.begun;
            return;
        }
        match vars.get(name) {
            Some(v) => self.put(v.as_str(), sep),
            None => {
                if show_unknown {
                    let text = concat3("{", name, "}");
                    self.put(text.as_str(), sep);
                } else {
                    self.put("", sep);
                    proof {
                        reveal_strlit("");
                        assert(""@ =~= Seq::<char>::empty());
                    }
                }
            },
        }
    }
}

proof fn lemma_written_step(w: Written, pieces: Seq<Piece>, rest: Seq<Piece>, p: Piece, sep: Seq<char>)
    requires
        pieces == seq![p] + rest,
    ensures
        written(w, pieces, sep) == written(write(w, p, sep), rest, sep),
{
    assert(pieces.skip(1) =~= rest);
}

/// Fill in a template. A variable that is not known is left out, or left as it is written.
pub fn render(template: &str, vars: &TextMap<String>, sep: &str, show_unknown: bool) -> (r: String)
    ensures
        r@ == filled(template@, texts(vars@), sep@, show_unknown),
{
    let c = chars_of(template);
    let n: usize = c.len();
    let mut w = Writer { text: String::new(), begun: false, pending: false };
    let mut i: usize = 0;
    let ghost t = template@;
    let ghost m = texts(vars@);
    proof {
        assert(w.text@ =~= Seq::<char>::empty());
    }
    while i < n
        invariant
            n == c@.len(),
            c@ == t,
            m == texts(vars@),
            i <= n,
            written(w.state(), pieces_from(t, i as int, m, show_unknown), sep@).text == filled(
                t,
                m,
                sep@,
                show_unknown,
            ),
        decreases n - i,
    {
        let ghost state = w.state();
        let ghost all = pieces_from(t, i as int, m, show_unknown);
        let end = closing_at(&c, i + 1);
        let name_end: Option<usize> = if c[i] == '{' {
            end
        } else {
            None
        };
        match name_end {
            Some(j) => {
                let name = text_of(&c, i + 1, j);
                w.put_named(name.as_str(), vars, sep, show_unknown);
                proof {
                    lemma_written_step(
                        state,
                        all,
                        pieces_from(t, j + 1, m, show_unknown),
                        piece_of(t.subrange(i + 1, j as int), m, show_unknown),
                        sep@,
                    );
                }
                i = j + 1;
            },
            None => {
                let one = text_of(&c, i, i + 1);
                proof {
                    assert(t.subrange(i as int, i + 1) =~= seq![t[i as int]]);
                }
                w.put(one.as_str(), sep);
                proof {
                    lemma_written_step(
                        state,
                        all,
                        pieces_from(t, i + 1, m, show_unknown),
                        Piece::Text(seq![t[i as int]]),
                        sep@,
                    );
                }
                i += 1;
            },
        }
    }
    w.text
}

/// Fill in the default template from variables that were collected before.
pub fn render_with_vars(variables: &TextMap<String>, layout: &LayoutConfig) -> (r: String)
    ensures
        r@ == filled(
            PRESET_DEFAULT@,
            texts(variables@),
            layout.separator@,
            layout.show_unknown_vars,
        ),
{
    render(PRESET_DEFAULT, variables, layout.separator.as_str(), layout.show_unknown_vars)
}

// ---------------------------------------------------------------------------
// Laws
// ---------------------------------------------------------------------------

/// A separator in front of an empty variable changes nothing at the end of a line, however
/// much was written before it.
pub proof fn separator_before_nothing_is_dropped(w: Written, sep: Seq<char>)
    ensures
        ({
            let s = write(write(w, Piece::Separator, sep), Piece::Text(Seq::empty()), sep);
            &&& s.text == w.text
            &&& write(s, Piece::Text(seq!['\n']), sep) == write(w, Piece::Text(seq!['\n']), sep)
        }),
{
}

/// A separator stands between two parts of a line that are there, once, however many empty
/// parts and further separators lie between them.
pub proof fn separator_stands_between_parts(
    w: Written,
    a: Seq<char>,
    b: Seq<char>,
    sep: Seq<char>,
)
    requires
        a.len() > 0,
        b.len() > 0,
        a != seq!['\n'],
        b != seq!['\n'],
        !w.pending,
    ensures
        ({
            let one = write(write(w, Piece::Text(a), sep), Piece::Separator, sep);
            let two = write(write(one, Piece::Text(Seq::empty()), sep), Piece::Separator, sep);
            &&& write(one, Piece::Text(b), sep).text == w.text + a + sep + b
            &&& write(two, Piece::Text(b), sep).text == w.text + a + sep + b
        }),
{
}

/// No line begins with a separator.
pub proof fn no_line_begins_with_a_separator(b: Seq<char>, sep: Seq<char>)
    ensures
        write(write(blank(), Piece::Separator, sep), Piece::Text(b), sep).text == b,
{
    assert(Seq::<char>::empty() + b =~= b);
    if b.len() == 0 {
        assert(b =~= Seq::<char>::empty());
    }
}

} // verus!
