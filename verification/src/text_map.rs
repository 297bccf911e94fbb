//! A map with text keys.

use crate::text::{in_order, order_keeps_all, ordered, same, views};
use vstd::prelude::*;

verus! {

/// Values found by name. Each name occurs once; names keep the order in which they
/// were first inserted.
#[derive(Debug)]
pub struct TextMap<V> {
    entries: Vec<(String, V)>,
}

/// No name stands twice in the list.
spec fn distinct<V>(e: Seq<(String, V)>) -> bool {
    forall|i: int, j: int| 0 <= i < j < e.len() ==> (#[trigger] e[i]).0@ != (#[trigger] e[j]).0@
}

/// The map that a list of entries stands for.
spec fn map_of<V>(e: Seq<(String, V)>) -> Map<Seq<char>, V>
    decreases e.len(),
{
    if e.len() == 0 {
        Map::empty()
    } else {
        map_of(e.drop_last()).insert(e.last().0@, e.last().1)
    }
}

proof fn lemma_map_of_dom<V>(e: Seq<(String, V)>)
    ensures
        map_of(e).dom().finite(),
        forall|k: Seq<char>| #[trigger]
            map_of(e).dom().contains(k) ==> exists|i: int|
                0 <= i < e.len() && (#[trigger] e[i]).0@ == k,
        distinct(e) ==> map_of(e).dom().len() == e.len(),
        distinct(e) ==> forall|i: int|
            0 <= i < e.len() ==> map_of(e).dom().contains((#[trigger] e[i]).0@) && map_of(e)[e[i].0@]
                == e[i].1,
    decreases e.len(),
{
    if e.len() > 0 {
        let f = e.drop_last();
        lemma_map_of_dom(f);
        assert forall|k: Seq<char>| #[trigger] map_of(e).dom().contains(k) implies exists|i: int|
            0 <= i < e.len() && (#[trigger] e[i]).0@ == k by {
            if k == e.last().0@ {
                assert(e[e.len() - 1].0@ == k);
            } else {
                assert(map_of(f).dom().contains(k));
                let i = choose|i: int| 0 <= i < f.len() && (#[trigger] f[i]).0@ == k;
                assert(e[i].0@ == k);
            }
        }
        if distinct(e) {
            assert(distinct(f)) by {
                assert forall|i: int, j: int| 0 <= i < j < f.len() implies (#[trigger] f[i]).0@ != (
                #[trigger] f[j]).0@ by {
                    assert(e[i].0@ != e[j].0@);
                }
            }
            assert(!map_of(f).dom().contains(e.last().0@)) by {
                if map_of(f).dom().contains(e.last().0@) {
                    let i = choose|i: int| 0 <= i < f.len() && (#[trigger] f[i]).0@ == e.last().0@;
                    assert(e[i].0@ != e[e.len() - 1].0@);
                }
            }
            assert forall|i: int| 0 <= i < e.len() implies map_of(e).dom().contains(
                (#[trigger] e[i]).0@,
            ) && map_of(e)[e[i].0@] == e[i].1 by {
                if i < f.len() {
                    assert(f[i] == e[i]);
                    assert(e[i].0@ != e[e.len() - 1].0@);
                }
            }
        }
    }
}

proof fn lemma_map_of_update<V>(e: Seq<(String, V)>, i: int, v: (String, V))
    requires
        distinct(e),
        0 <= i < e.len(),
        v.0@ == e[i].0@,
    ensures
        distinct(e.update(i, v)),
        map_of(e.update(i, v)) == map_of(e).insert(v.0@, v.1),
    decreases e.len(),
{
    let u = e.update(i, v);
    let f = e.drop_last();
    assert forall|a: int, b: int| 0 <= a < b < u.len() implies (#[trigger] u[a]).0@ != (
    #[trigger] u[b]).0@ by {
        assert(e[a].0@ != e[b].0@);
    }
    assert(distinct(f)) by {
        assert forall|a: int, b: int| 0 <= a < b < f.len() implies (#[trigger] f[a]).0@ != (
        #[trigger] f[b]).0@ by {
            assert(e[a].0@ != e[b].0@);
        }
    }
    if i == e.len() - 1 {
        assert(u.drop_last() =~= f);
        assert(map_of(u) =~= map_of(e).insert(v.0@, v.1));
    } else {
        lemma_map_of_update(f, i, v);
        assert(u.drop_last() =~= f.update(i, v));
        assert(e[i].0@ != e[e.len() - 1].0@);
        assert(map_of(u) =~= map_of(e).insert(v.0@, v.1));
    }
}

impl<V> View for TextMap<V> {
    type V = Map<Seq<char>, V>;

    closed spec fn view(&self) -> Map<Seq<char>, V> {
        map_of(self.entries@)
    }
}

impl<V> TextMap<V> {
    #[verifier::type_invariant]
    spec fn wf(self) -> bool {
        distinct(self.entries@)
    }

    /// The names in the order in which they were first inserted.
    pub closed spec fn names(self) -> Seq<Seq<char>> {
        Seq::new(self.entries@.len(), |i: int| self.entries@[i].0@)
    }

    pub fn new() -> (r: Self)
        ensures
            r@ == Map::<Seq<char>, V>::empty(),
            r.names() == Seq::<Seq<char>>::empty(),
    {
        let r = TextMap { entries: Vec::new() };
        proof {
            assert(r.names() =~= Seq::<Seq<char>>::empty());
        }
        r
    }

    /// Number of names.
    pub fn len(&self) -> (r: usize)
        ensures
            self@.dom().finite(),
            r == self@.dom().len(),
            r == self.names().len(),
            self.names().no_duplicates(),
            forall|k: Seq<char>| #[trigger] self.names().contains(k) <==> self@.dom().contains(k),
    {
        proof {
            use_type_invariant(self);
            lemma_map_of_dom(self.entries@);
            let e = self.entries@;
            let n = self.names();
            assert forall|i: int, j: int| 0 <= i < n.len() && 0 <= j < n.len() && i != j implies n[i]
                != n[j] by {
                if i < j {
                    assert(e[i].0@ != e[j].0@);
                } else {
                    assert(e[j].0@ != e[i].0@);
                }
            }
            assert forall|k: Seq<char>| #[trigger] n.contains(k) <==> self@.dom().contains(k) by {
                if n.contains(k) {
                    let i = choose|i: int| 0 <= i < n.len() && n[i] == k;
                    assert(self@.dom().contains(e[i].0@));
                }
                if self@.dom().contains(k) {
                    let i = choose|i: int| 0 <= i < e.len() && (#[trigger] e[i]).0@ == k;
                    assert(n[i] == k);
                }
            }
        }
        self.entries.len()
    }

    pub fn is_empty(&self) -> (r: bool)
        ensures
            r == (self@.dom() =~= Set::<Seq<char>>::empty()),
            r == (self.names().len() == 0),
    {
        proof {
            use_type_invariant(self);
            lemma_map_of_dom(self.entries@);
            if self.entries@.len() > 0 {
                assert(self@.dom().contains(self.entries@[0].0@));
            }
        }
        self.entries.len() == 0
    }

    /// The name at a position.
    pub fn name_at(&self, i: usize) -> (r: &str)
        requires
            i < self.names().len(),
        ensures
            r@ == self.names()[i as int],
            self@.dom().contains(r@),
    {
        proof {
            use_type_invariant(self);
            lemma_map_of_dom(self.entries@);
            assert(self.entries@[i as int].0@ == self.names()[i as int]);
        }
        self.entries[i].0.as_str()
    }

    /// The value at a position.
    pub fn value_at(&self, i: usize) -> (r: &V)
        requires
            i < self.names().len(),
        ensures
            *r == self@[self.names()[i as int]],
    {
        proof {
            use_type_invariant(self);
            lemma_map_of_dom(self.entries@);
            assert(self.entries@[i as int].0@ == self.names()[i as int]);
        }
        &self.entries[i].1
    }

    /// The names, in order.
    pub fn ordered_names(&self) -> (r: Vec<String>)
        ensures
            views(r@) == in_order(self.names()),
            forall|i: int| 0 <= i < r@.len() ==> self@.dom().contains((#[trigger] r@[i])@),
    {
        let n: usize = self.len();
        let mut out: Vec<String> = Vec::new();
        let mut i: usize = 0;
        while i < n
            invariant
                n == self.names().len(),
                i <= n,
                out@.len() == i,
                forall|j: int| 0 <= j < i ==> (#[trigger] out@[j])@ == self.names()[j],
            decreases n - i,
        {
            out.push(self.name_at(i).to_owned());
            i += 1;
        }
        proof {
            assert(views(out@) =~= self.names());
        }
        let r = ordered(&out);
        proof {
            let all = self.names();
            order_keeps_all(all);
            broadcast use vstd::seq_lib::group_to_multiset_ensures;

            assert forall|i: int| 0 <= i < r@.len() implies self@.dom().contains(
                (#[trigger] r@[i])@,
            ) by {
                assert(views(r@)[i] == r@[i]@);
                assert(in_order(all).contains(in_order(all)[i]));
                assert(in_order(all).to_multiset().count(in_order(all)[i]) > 0);
                assert(all.contains(r@[i]@));
            }
        }
        r
    }

    fn find(&self, key: &str) -> (r: Option<usize>)
        ensures
            match r {
                Some(i) => i < self.entries@.len() && self.entries@[i as int].0@ == key@,
                None => forall|j: int|
                    0 <= j < self.entries@.len() ==> (#[trigger] self.entries@[j]).0@ != key@,
            },
    {
        let mut i: usize = 0;
        while i < self.entries.len()
            invariant
                i <= self.entries@.len(),
                forall|j: int| 0 <= j < i ==> (#[trigger] self.entries@[j]).0@ != key@,
            decreases self.entries@.len() - i,
        {
            if same(self.entries[i].0.as_str(), key) {
                return Some(i);
            }
            i += 1;
        }
        None
    }

    /// The value of a name, if it has one.
    pub fn get(&self, key: &str) -> (r: Option<&V>)
        ensures
            match r {
                Some(v) => self@.dom().contains(key@) && *v == self@[key@],
                None => !self@.dom().contains(key@),
            },
    {
        proof {
            use_type_invariant(self);
            lemma_map_of_dom(self.entries@);
        }
        match self.find(key) {
            Some(i) => Some(&self.entries[i].1),
            None => None,
        }
    }

    pub fn contains_key(&self, key: &str) -> (r: bool)
        ensures
            r == self@.dom().contains(key@),
    {
        proof {
            use_type_invariant(self);
            lemma_map_of_dom(self.entries@);
        }
        self.find(key).is_some()
    }

    /// Give a name a value, in place of the one it had.
    pub fn insert(&mut self, key: String, value: V)
        ensures
            final(self)@ == old(self)@.insert(key@, value),
            old(self)@.dom().contains(key@) ==> final(self).names() == old(self).names(),
            !old(self)@.dom().contains(key@) ==> final(self).names() == old(self).names().push(key@),
    {
        proof {
            use_type_invariant(&*self);
            lemma_map_of_dom(self.entries@);
        }
        let at = self.find(key.as_str());
        let ghost e0 = self.entries@;
        let mut es: Vec<(String, V)> = Vec::new();
        std::mem::swap(&mut es, &mut self.entries);
        match at {
            Some(i) => {
                proof {
                    lemma_map_of_update(e0, i as int, (key, value));
                }
                es.set(i, (key, value));
            },
            None => {
                proof {
                    let e1 = e0.push((key, value));
                    assert(e1.drop_last() =~= e0);
                    assert forall|a: int, b: int| 0 <= a < b < e1.len() implies (
                    #[trigger] e1[a]).0@ != (#[trigger] e1[b]).0@ by {
                        if b < e0.len() {
                            assert(e0[a].0@ != e0[b].0@);
                        }
                    }
                }
                es.push((key, value));
            },
        }
        self.entries = es;
        proof {
            let o = Seq::new(e0.len(), |i: int| e0[i].0@);
            if at is Some {
                assert(self.names() =~= o);
            } else {
                assert(self.names() =~= o.push(key@));
            }
        }
    }
}

} // verus!
