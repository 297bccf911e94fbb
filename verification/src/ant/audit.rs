//! Looking for keys in what is kept on disk.

use crate::text::stands_at;
use vstd::prelude::*;

verus! {

/// The shape of a key, for either family of keys.
pub const KEY_PATTERN: &'static str = "sk-ant-[A-Za-z0-9_-]+";

/// The characters that a key is made of.
pub open spec fn is_key_char(c: char) -> bool {
    '0' <= c <= '9' || 'A' <= c <= 'Z' || 'a' <= c <= 'z' || c == '_' || c == '-'
}

/// Whether a text holds a key: its prefix, followed by at least one key character.
pub open spec fn holds_key(s: Seq<char>) -> bool {
    exists|i: int|
        #[trigger] stands_at(s, "sk-ant-"@, i) && i + 7 < s.len() && is_key_char(s[i + 7])
}

/// Compiles [`KEY_PATTERN`] with `regex::Regex::new` and searches `text` with
/// `Regex::is_match`. Claims that a match is found exactly where the literal prefix is
/// followed by one of the listed characters.
#[verifier::external_body]
pub(crate) fn key_in(text: &str) -> (r: bool)
    ensures
        r == holds_key(text@),
{
    regex::Regex::new(KEY_PATTERN).expect("the key pattern is a valid expression").is_match(text)
}

/// A file to look at: its path, and its text where it could be read.
#[derive(Debug)]
pub struct Artifact {
    pub path: String,
    pub text: Option<String>,
}

/// One file that was looked at.
#[derive(Debug)]
pub struct LeakFinding {
    pub path: String,
    /// Whether the file holds a key.
    pub matched: bool,
}

/// What is found of a list of files, in their order; files that could not be read are
/// left out.
pub open spec fn findings_of(artifacts: Seq<Artifact>) -> Seq<(Seq<char>, bool)>
    decreases artifacts.len(),
{
    if artifacts.len() == 0 {
        Seq::empty()
    } else {
        let rest = findings_of(artifacts.drop_last());
        match artifacts.last().text {
            Some(t) => rest.push((artifacts.last().path@, holds_key(t@))),
            None => rest,
        }
    }
}

/// The contents of a list of findings.
pub open spec fn finding_views(f: Seq<LeakFinding>) -> Seq<(Seq<char>, bool)> {
    Seq::new(f.len(), |i: int| (f[i].path@, f[i].matched))
}

/// Look for keys in the given files. Files that could not be read are left out.
pub fn scan_artifacts_for_keys(artifacts: &Vec<Artifact>) -> (r: Vec<LeakFinding>)
    ensures
        finding_views(r@) == findings_of(artifacts@),
{
    let mut out: Vec<LeakFinding> = Vec::new();
    let mut i: usize = 0;
    proof {
        assert(finding_views(out@) =~= findings_of(artifacts@.take(0)));
    }
    while i < artifacts.len()
        invariant
            i <= artifacts@.len(),
            finding_views(out@) == findings_of(artifacts@.take(i as int)),
        decreases artifacts@.len() - i,
    {
        let ghost before = out@;
        proof {
            assert(artifacts@.take(i + 1).drop_last() =~= artifacts@.take(i as int));
            assert(artifacts@.take(i + 1).last() == artifacts@[i as int]);
        }
        let a = &artifacts[i];
        match &a.text {
            Some(t) => {
                let f = LeakFinding { path: a.path.clone(), matched: key_in(t.as_str()) };
                proof {
                    assert(finding_views(before.push(f)) =~= finding_views(before).push(
                        (f.path@, f.matched),
                    ));
                }
                out.push(f);
            },
            None => {},
        }
        i += 1;
    }
    proof {
        assert(artifacts@.take(artifacts@.len() as int) =~= artifacts@);
    }
    out
}

/// Whether none of the files holds a key.
pub fn is_clean(findings: &Vec<LeakFinding>) -> (r: bool)
    ensures
        r == forall|i: int| 0 <= i < findings@.len() ==> !(#[trigger] findings@[i]).matched,
{
    let mut i: usize = 0;
    while i < findings.len()
        invariant
            i <= findings@.len(),
            forall|j: int| 0 <= j < i ==> !(#[trigger] findings@[j]).matched,
        decreases findings@.len() - i,
    {
        if findings[i].matched {
            return false;
        }
        i += 1;
    }
    true
}

} // verus!
