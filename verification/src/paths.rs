//! Slash-separated paths as text.

use crate::text::{chars_of, concat2, concat3, opt_view, same, text_of};
use vstd::prelude::*;

verus! {

/// `p` without trailing slashes and without trailing `.` components.
pub open spec fn without_tail(p: Seq<char>) -> Seq<char>
    decreases p.len(),
{
    if p.len() > 0 && p.last() == '/' {
        without_tail(p.drop_last())
    } else if p.len() > 1 && p.last() == '.' && p[p.len() - 2] == '/' {
        without_tail(p.drop_last())
    } else {
        p
    }
}

/// The position of the last slash in `p`, or -1.
pub open spec fn last_slash(p: Seq<char>) -> int
    decreases p.len(),
{
    if p.len() == 0 {
        -1
    } else if p.last() == '/' {
        p.len() - 1
    } else {
        last_slash(p.drop_last())
    }
}

/// The directory that holds the last component of `p`.
pub open spec fn parent_of(p: Seq<char>) -> Option<Seq<char>> {
    let t = without_tail(p);
    let i = last_slash(t);
    if t.len() == 0 {
        None
    } else if i < 0 {
        Some(Seq::empty())
    } else {
        let d = without_tail(t.take(i));
        Some(
            if d.len() == 0 {
                "/"@
            } else {
                d
            },
        )
    }
}

/// `b` below the directory `a`; an absolute `b` stands for itself.
pub open spec fn path_below(a: Seq<char>, b: Seq<char>) -> Seq<char> {
    if b.len() > 0 && b[0] == '/' {
        b
    } else if a.len() == 0 {
        b
    } else if a.last() == '/' {
        a + b
    } else {
        a + "/"@ + b
    }
}

fn tail_start(c: &Vec<char>, upto: usize) -> (r: usize)
    requires
        upto <= c@.len(),
    ensures
        r <= upto,
        without_tail(c@.take(upto as int)) == c@.take(r as int),
{
    let mut n: usize = upto;
    while n > 0 && (c[n - 1] == '/' || (n > 1 && c[n - 1] == '.' && c[n - 2] == '/'))
        invariant
            n <= upto <= c@.len(),
            without_tail(c@.take(upto as int)) == without_tail(c@.take(n as int)),
        decreases n,
    {
        proof {
            assert(c@.take(n as int).drop_last() =~= c@.take(n - 1));
        }
        n -= 1;
    }
    n
}

pub fn parent(p: &str) -> (r: Option<String>)
    ensures
        match r {
            Some(d) => parent_of(p@) == Some(d@),
            None => parent_of(p@) is None,
        },
{
    let c = chars_of(p);
    proof {
        assert(c@.take(c@.len() as int) =~= c@);
    }
    let n: usize = tail_start(&c, c.len());
    if n == 0 {
        return None;
    }
    let ghost t = c@.take(n as int);
    let mut i: usize = n;
    proof {
        assert(t.take(n as int) =~= t);
    }
    while i > 0 && c[i - 1] != '/'
        invariant
            i <= n <= c@.len(),
            t == c@.take(n as int),
            last_slash(t) == last_slash(t.take(i as int)),
        decreases i,
    {
        proof {
            assert(t.take(i as int).drop_last() =~= t.take(i - 1));
        }
        i -= 1;
    }
    proof {
        if i > 0 {
            assert(t.take(i as int).last() == '/');
            assert(last_slash(t) == i - 1);
            assert(t.take(i - 1) =~= c@.take(i - 1));
        }
    }
    if i == 0 {
        let r = String::new();
        Some(r)
    } else {
        let m: usize = tail_start(&c, i - 1);
        if m == 0 {
            Some("/".to_owned())
        } else {
            proof {
                assert(c@.subrange(0, m as int) =~= c@.take(m as int));
            }
            Some(text_of(&c, 0, m))
        }
    }
}

pub fn join_path(a: &str, b: &str) -> (r: String)
    ensures
        r@ == path_below(a@, b@),
{
    let x = chars_of(a);
    let y = chars_of(b);
    if y.len() > 0 && y[0] == '/' {
        b.to_owned()
    } else if x.len() == 0 {
        b.to_owned()
    } else if x[x.len() - 1] == '/' {
        concat2(a, b)
    } else {
        concat3(a, "/", b)
    }
}

/// Whether `name` ends in `.jsonl` after at least one other character.
pub open spec fn is_jsonl(name: Seq<char>) -> bool {
    name.len() > 6 && name.subrange(name.len() - 6, name.len() as int) == ".jsonl"@
}

pub fn has_jsonl_extension(name: &str) -> (r: bool)
    ensures
        r == is_jsonl(name@),
{
    let c = chars_of(name);
    if c.len() <= 6 {
        return false;
    }
    let tail = text_of(&c, c.len() - 6, c.len());
    same(tail.as_str(), ".jsonl")
}

/// A path without the slashes at its end.
pub open spec fn without_slashes(p: Seq<char>) -> Seq<char>
    decreases p.len(),
{
    if p.len() > 0 && p.last() == '/' {
        without_slashes(p.drop_last())
    } else {
        p
    }
}

/// A path without the slashes at its end.
pub fn trim_slashes(p: &str) -> (r: String)
    ensures
        r@ == without_slashes(p@),
{
    let c = chars_of(p);
    let mut n: usize = c.len();
    proof {
        assert(c@.take(n as int) =~= c@);
    }
    while n > 0 && c[n - 1] == '/'
        invariant
            n <= c@.len(),
            without_slashes(c@.take(n as int)) == without_slashes(c@),
        decreases n,
    {
        proof {
            assert(c@.take(n as int).drop_last() =~= c@.take(n - 1));
        }
        n -= 1;
    }
    proof {
        assert(c@.subrange(0, n as int) =~= c@.take(n as int));
    }
    text_of(&c, 0, n)
}

/// The last part of a path: what stands behind its last slash, slashes at the end aside.
pub open spec fn last_part(p: Seq<char>) -> Seq<char> {
    let t = without_slashes(p);
    t.skip(last_slash(t) + 1)
}

/// What stands before the last part of a path.
pub open spec fn before_last_part(p: Seq<char>) -> Seq<char> {
    let t = without_slashes(p);
    t.take(last_slash(t) + 1)
}

/// The last part of a path, and what stands before it.
pub fn split_last_part(p: &str) -> (r: (String, String))
    ensures
        r.0@ == last_part(p@),
        r.1@ == before_last_part(p@),
{
    let t = trim_slashes(p);
    let c = chars_of(t.as_str());
    let n: usize = c.len();
    let mut i: usize = n;
    proof {
        assert(c@.take(n as int) =~= c@);
    }
    while i > 0 && c[i - 1] != '/'
        invariant
            i <= n,
            n == c@.len(),
            last_slash(c@.take(i as int)) == last_slash(c@),
        decreases i,
    {
        proof {
            assert(c@.take(i as int).drop_last() =~= c@.take(i - 1));
        }
        i -= 1;
    }
    proof {
        assert(last_slash(c@) == i - 1);
        assert(c@.subrange(i as int, n as int) =~= c@.skip(i as int));
        assert(c@.subrange(0, i as int) =~= c@.take(i as int));
    }
    (text_of(&c, i, n), text_of(&c, 0, i))
}

/// The name of the file that a path leads to, if it leads to one.
pub open spec fn file_name_of(p: Seq<char>) -> Option<Seq<char>> {
    let t = without_tail(p);
    let name = t.skip(last_slash(t) + 1);
    if name.len() == 0 || name == "."@ || name == ".."@ {
        None
    } else {
        Some(name)
    }
}

/// The name of the file that a path leads to, if it leads to one.
pub fn file_name(p: &str) -> (r: Option<String>)
    ensures
        opt_view(r) == file_name_of(p@),
{
    let c = chars_of(p);
    proof {
        assert(c@.take(c@.len() as int) =~= c@);
    }
    let n: usize = tail_start(&c, c.len());
    let ghost t = c@.take(n as int);
    let mut i: usize = n;
    proof {
        assert(t.take(n as int) =~= t);
    }
    while i > 0 && c[i - 1] != '/'
        invariant
            i <= n <= c@.len(),
            t == c@.take(n as int),
            last_slash(t) == last_slash(t.take(i as int)),
        decreases i,
    {
        proof {
            assert(t.take(i as int).drop_last() =~= t.take(i - 1));
        }
        i -= 1;
    }
    proof {
        assert(last_slash(t) == i - 1);
        assert(c@.subrange(i as int, n as int) =~= t.skip(i as int));
    }
    let name = text_of(&c, i, n);
    if name.as_str().is_empty() || same(name.as_str(), ".") || same(name.as_str(), "..") {
        None
    } else {
        Some(name)
    }
}

} // verus!
