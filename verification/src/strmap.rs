//! A small string-to-string map kept as a list of pairs with distinct keys.

use vstd::prelude::*;

use crate::text::{chars_eq, chars_of};

verus! {

/// A map from strings to strings, kept as a list of pairs with distinct
/// keys; inserting an existing key replaces its value. It is a list rather
/// than a `HashMap` because vstd's hash-table
/// specifications hold only for keys whose hashing it models (the integer
/// types), not for `String`.
pub struct StrMap {
    entries: Vec<(String, String)>,
}

/// The map that a list of pairs denotes (later pairs win).
pub open spec fn pairs_map(es: Seq<(String, String)>) -> Map<Seq<char>, Seq<char>>
    decreases es.len(),
{
    if es.len() == 0 {
        Map::empty()
    } else {
        pairs_map(es.drop_last()).insert(es.last().0@, es.last().1@)
    }
}

/// No key occurs twice.
pub open spec fn unique_keys(es: Seq<(String, String)>) -> bool {
    forall|i: int, j: int|
        0 <= i < es.len() && 0 <= j < es.len() && i != j ==> #[trigger] es[i].0@ != #[trigger] es[j].0@
}

proof fn lemma_pairs_lookup(es: Seq<(String, String)>, i: int)
    requires
        unique_keys(es),
        0 <= i < es.len(),
    ensures
        pairs_map(es).dom().contains(es[i].0@),
        pairs_map(es)[es[i].0@] == es[i].1@,
    decreases es.len(),
{
    if i < es.len() - 1 {
        let d = es.drop_last();
        assert(d[i] == es[i]);
        assert forall|a: int, b: int|
            0 <= a < d.len() && 0 <= b < d.len() && a != b implies #[trigger] d[a].0@
            != #[trigger] d[b].0@ by {
            assert(d[a] == es[a] && d[b] == es[b]);
        }
        lemma_pairs_lookup(d, i);
        assert(es[es.len() - 1].0@ != es[i].0@);
    }
}

proof fn lemma_pairs_absent(es: Seq<(String, String)>, k: Seq<char>)
    requires
        forall|i: int| 0 <= i < es.len() ==> #[trigger] es[i].0@ != k,
    ensures
        !pairs_map(es).dom().contains(k),
    decreases es.len(),
{
    if es.len() > 0 {
        let d = es.drop_last();
        assert forall|i: int| 0 <= i < d.len() implies #[trigger] d[i].0@ != k by {
            assert(d[i] == es[i]);
        }
        lemma_pairs_absent(d, k);
        assert(es[es.len() - 1].0@ != k);
    }
}

proof fn lemma_pairs_replace(es: Seq<(String, String)>, i: int, v: String)
    requires
        unique_keys(es),
        0 <= i < es.len(),
    ensures
        unique_keys(es.update(i, (es[i].0, v))),
        pairs_map(es.update(i, (es[i].0, v))) == pairs_map(es).insert(es[i].0@, v@),
    decreases es.len(),
{
    let u = es.update(i, (es[i].0, v));
    assert forall|a: int, b: int|
        0 <= a < u.len() && 0 <= b < u.len() && a != b implies #[trigger] u[a].0@
        != #[trigger] u[b].0@ by {
        assert(u[a].0@ == es[a].0@ && u[b].0@ == es[b].0@);
    }
    let d = es.drop_last();
    assert forall|a: int, b: int|
        0 <= a < d.len() && 0 <= b < d.len() && a != b implies #[trigger] d[a].0@
        != #[trigger] d[b].0@ by {
        assert(d[a] == es[a] && d[b] == es[b]);
    }
    if i == es.len() - 1 {
        assert(u.drop_last() =~= d);
        assert(pairs_map(u) =~= pairs_map(es).insert(es[i].0@, v@));
    } else {
        lemma_pairs_replace(d, i, v);
        assert(u.drop_last() =~= d.update(i, (d[i].0, v)));
        assert(es[es.len() - 1].0@ != es[i].0@);
        assert(pairs_map(u) =~= pairs_map(es).insert(es[i].0@, v@));
    }
}

impl StrMap {
    /// The map the pairs hold.
    pub closed spec fn view(&self) -> Map<Seq<char>, Seq<char>> {
        pairs_map(self.entries@)
    }

    /// Each key held once.
    pub closed spec fn wf(&self) -> bool {
        unique_keys(self.entries@)
    }

    /// The pairs, in insertion order.
    pub closed spec fn pairs(&self) -> Seq<(Seq<char>, Seq<char>)> {
        Seq::new(self.entries@.len(), |i: int| (self.entries@[i].0@, self.entries@[i].1@))
    }

    /// The pairs hold exactly the map, each key once.
    pub proof fn lemma_pairs_view(&self)
        requires
            self.wf(),
        ensures
            forall|i: int, j: int|
                0 <= i < self.pairs().len() && 0 <= j < self.pairs().len() && i != j
                    ==> #[trigger] self.pairs()[i].0 != #[trigger] self.pairs()[j].0,
            forall|i: int|
                0 <= i < self.pairs().len() ==> self.view().dom().contains(
                    #[trigger] self.pairs()[i].0,
                ) && self.view()[self.pairs()[i].0] == self.pairs()[i].1,
            forall|k: Seq<char>|
                #[trigger] self.view().dom().contains(k) ==> exists|i: int|
                    0 <= i < self.pairs().len() && self.pairs()[i].0 == k,
    {
        assert forall|i: int| 0 <= i < self.pairs().len() implies self.view().dom().contains(
            #[trigger] self.pairs()[i].0,
        ) && self.view()[self.pairs()[i].0] == self.pairs()[i].1 by {
            lemma_pairs_lookup(self.entries@, i);
        }
        assert forall|k: Seq<char>| #[trigger] self.view().dom().contains(k) implies exists|i: int|
            0 <= i < self.pairs().len() && self.pairs()[i].0 == k by {
            if !(exists|i: int| 0 <= i < self.pairs().len() && self.pairs()[i].0 == k) {
                assert forall|i: int| 0 <= i < self.entries@.len() implies #[trigger] self.entries@[i].0@ != k by {
                    assert(self.pairs()[i].0 == self.entries@[i].0@);
                }
                lemma_pairs_absent(self.entries@, k);
            }
        }
    }

    /// Number of pairs.
    pub fn len(&self) -> (n: usize)
        ensures
            n == self.pairs().len(),
    {
        self.entries.len()
    }

    /// The `i`-th pair.
    pub fn pair_at(&self, i: usize) -> (r: (&String, &String))
        requires
            i < self.pairs().len(),
        ensures
            r.0@ == self.pairs()[i as int].0,
            r.1@ == self.pairs()[i as int].1,
    {
        (&self.entries[i].0, &self.entries[i].1)
    }

    /// Whether `key` is present.
    pub fn contains_key(&self, key: &str) -> (r: bool)
        requires
            self.wf(),
        ensures
            r == self.view().dom().contains(key@),
    {
        match self.find(key) {
            Some(i) => {
                proof {
                    lemma_pairs_lookup(self.entries@, i as int);
                }
                true
            },
            None => {
                proof {
                    lemma_pairs_absent(self.entries@, key@);
                }
                false
            },
        }
    }

    /// The empty map.
    pub fn new() -> (m: Self)
        ensures
            m.wf(),
            m.view() == Map::<Seq<char>, Seq<char>>::empty(),
    {
        StrMap { entries: Vec::new() }
    }

    fn find(&self, key: &str) -> (r: Option<usize>)
        ensures
            match r {
                Some(i) => i < self.entries@.len() && self.entries@[i as int].0@ == key@,
                None => forall|i: int|
                    0 <= i < self.entries@.len() ==> #[trigger] self.entries@[i].0@ != key@,
            },
    {
        let k = chars_of(key);
        let mut i: usize = 0;
        while i < self.entries.len()
            invariant
                k@ == key@,
                i <= self.entries@.len(),
                forall|m: int| 0 <= m < i ==> #[trigger] self.entries@[m].0@ != key@,
            decreases self.entries@.len() - i,
        {
            if chars_eq(&chars_of(self.entries[i].0.as_str()), &k) {
                return Some(i);
            }
            i = i + 1;
        }
        None
    }

    /// The value of `key`, if present.
    pub fn get(&self, key: &str) -> (r: Option<String>)
        requires
            self.wf(),
        ensures
            match r {
                Some(v) => self.view().dom().contains(key@) && self.view()[key@] == v@,
                None => !self.view().dom().contains(key@),
            },
    {
        match self.find(key) {
            Some(i) => {
                proof {
                    lemma_pairs_lookup(self.entries@, i as int);
                }
                Some(self.entries[i].1.clone())
            },
            None => {
                proof {
                    lemma_pairs_absent(self.entries@, key@);
                }
                None
            },
        }
    }

    /// Set `key` to `value`, replacing an earlier value.
    pub fn insert(&mut self, key: String, value: String)
        requires
            old(self).wf(),
        ensures
            final(self).wf(),
            final(self).view() == old(self).view().insert(key@, value@),
    {
        match self.find(key.as_str()) {
            Some(i) => {
                let ghost es = self.entries@;
                proof {
                    lemma_pairs_replace(es, i as int, value);
                }
                let k = self.entries[i].0.clone();
                self.entries.set(i, (k, value));
                assert(self.entries@ =~= es.update(i as int, (es[i as int].0, value)));
            },
            None => {
                let ghost es = self.entries@;
                self.entries.push((key, value));
                assert(self.entries@.drop_last() =~= es);
                assert forall|a: int, b: int|
                    0 <= a < self.entries@.len() && 0 <= b < self.entries@.len() && a
                        != b implies #[trigger] self.entries@[a].0@
                    != #[trigger] self.entries@[b].0@ by {
                    if a < es.len() {
                        assert(self.entries@[a] == es[a]);
                    }
                    if b < es.len() {
                        assert(self.entries@[b] == es[b]);
                    }
                }
            },
        }
    }
}

} // verus!
