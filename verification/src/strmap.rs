//! A map from strings to strings with at most one entry per key, kept in
//! insertion order.

use vstd::prelude::*;

verus! {

/// The value `m` holds for `k`, if any.
pub open spec fn map_get(m: Map<Seq<char>, Seq<char>>, k: Seq<char>) -> Option<Seq<char>> {
    if m.dom().contains(k) {
        Some(m[k])
    } else {
        None
    }
}

/// The map that inserting `pairs` one by one, in order, into an empty map gives.
pub open spec fn pairs_to_map(pairs: Seq<(String, String)>) -> Map<Seq<char>, Seq<char>>
    decreases pairs.len(),
{
    if pairs.len() == 0 {
        Map::empty()
    } else {
        pairs_to_map(pairs.drop_last()).insert(pairs.last().0@, pairs.last().1@)
    }
}

/// No two pairs share a key.
pub open spec fn keys_unique(pairs: Seq<(String, String)>) -> bool {
    forall|i: int, j: int|
        0 <= i < pairs.len() && 0 <= j < pairs.len() && i != j ==> #[trigger] pairs[i].0@
            != #[trigger] pairs[j].0@
}

pub proof fn lemma_pairs_dom(pairs: Seq<(String, String)>, k: Seq<char>)
    ensures
        pairs_to_map(pairs).dom().contains(k) <==> exists|i: int|
            0 <= i < pairs.len() && #[trigger] pairs[i].0@ == k,
    decreases pairs.len(),
{
    if pairs.len() > 0 {
        let init = pairs.drop_last();
        lemma_pairs_dom(init, k);
        if pairs_to_map(pairs).dom().contains(k) {
            if k != pairs.last().0@ {
                let i = choose|i: int| 0 <= i < init.len() && #[trigger] init[i].0@ == k;
                assert(pairs[i].0@ == k);
            } else {
                assert(pairs[pairs.len() - 1].0@ == k);
            }
        }
        if exists|i: int| 0 <= i < pairs.len() && #[trigger] pairs[i].0@ == k {
            let i = choose|i: int| 0 <= i < pairs.len() && #[trigger] pairs[i].0@ == k;
            if i < pairs.len() - 1 {
                assert(init[i].0@ == k);
            }
        }
    }
}

pub proof fn lemma_pairs_value(pairs: Seq<(String, String)>, i: int)
    requires
        keys_unique(pairs),
        0 <= i < pairs.len(),
    ensures
        pairs_to_map(pairs).dom().contains(pairs[i].0@),
        pairs_to_map(pairs)[pairs[i].0@] == pairs[i].1@,
    decreases pairs.len(),
{
    let init = pairs.drop_last();
    if i < pairs.len() - 1 {
        assert(keys_unique(init)) by {
            assert forall|a: int, b: int|
                0 <= a < init.len() && 0 <= b < init.len() && a != b implies #[trigger] init[a].0@
                != #[trigger] init[b].0@ by {
                assert(pairs[a].0@ != pairs[b].0@);
            }
        }
        lemma_pairs_value(init, i);
        assert(pairs[i] == init[i]);
        assert(pairs[i].0@ != pairs[pairs.len() - 1].0@);
    }
}

pub proof fn lemma_pairs_update(pairs: Seq<(String, String)>, i: int, v: String)
    requires
        keys_unique(pairs),
        0 <= i < pairs.len(),
    ensures
        pairs_to_map(pairs.update(i, (pairs[i].0, v))) =~= pairs_to_map(pairs).insert(
            pairs[i].0@,
            v@,
        ),
        keys_unique(pairs.update(i, (pairs[i].0, v))),
    decreases pairs.len(),
{
    let q = pairs.update(i, (pairs[i].0, v));
    let init = pairs.drop_last();
    assert(keys_unique(q)) by {
        assert forall|a: int, b: int|
            0 <= a < q.len() && 0 <= b < q.len() && a != b implies #[trigger] q[a].0@
            != #[trigger] q[b].0@ by {
            assert(pairs[a].0@ != pairs[b].0@);
        }
    }
    if i == pairs.len() - 1 {
        assert(q.drop_last() =~= init);
        lemma_pairs_dom(init, pairs[i].0@);
        assert(!pairs_to_map(init).dom().contains(pairs[i].0@)) by {
            if pairs_to_map(init).dom().contains(pairs[i].0@) {
                let j = choose|j: int| 0 <= j < init.len() && #[trigger] init[j].0@ == pairs[i].0@;
                assert(pairs[j].0@ == pairs[i].0@);
            }
        }
    } else {
        assert(keys_unique(init)) by {
            assert forall|a: int, b: int|
                0 <= a < init.len() && 0 <= b < init.len() && a != b implies #[trigger] init[a].0@
                != #[trigger] init[b].0@ by {
                assert(pairs[a].0@ != pairs[b].0@);
            }
        }
        lemma_pairs_update(init, i, v);
        assert(q.drop_last() =~= init.update(i, (init[i].0, v)));
        assert(pairs[i].0@ != pairs[pairs.len() - 1].0@);
    }
}

/// A string-to-string map with one entry per key, in insertion order.
pub struct StringMap {
    entries: Vec<(String, String)>,
}

impl View for StringMap {
    type V = Map<Seq<char>, Seq<char>>;

    closed spec fn view(&self) -> Map<Seq<char>, Seq<char>> {
        pairs_to_map(self.entries@)
    }
}

impl StringMap {
    #[verifier::type_invariant]
    closed spec fn inv(self) -> bool {
        keys_unique(self.entries@)
    }

    /// The entries in insertion order.
    pub closed spec fn pairs(self) -> Seq<(String, String)> {
        self.entries@
    }

    /// An empty map.
    pub fn new() -> (r: StringMap)
        ensures
            r@ == Map::<Seq<char>, Seq<char>>::empty(),
            r.pairs().len() == 0,
    {
        StringMap { entries: Vec::new() }
    }

    /// The position of `key` among the entries, if present.
    fn find(&self, key: &str) -> (r: Option<usize>)
        ensures
            match r {
                Some(i) => i < self.entries@.len() && self.entries@[i as int].0@ == key@,
                None => forall|j: int|
                    0 <= j < self.entries@.len() ==> #[trigger] self.entries@[j].0@ != key@,
            },
    {
        let mut i: usize = 0;
        while i < self.entries.len()
            invariant
                i <= self.entries@.len(),
                forall|j: int| 0 <= j < i ==> #[trigger] self.entries@[j].0@ != key@,
            decreases self.entries@.len() - i,
        {
            if crate::text::str_eq(self.entries[i].0.as_str(), key) {
                return Some(i);
            }
            i = i + 1;
        }
        None
    }

    /// The value held for `key`, if any.
    pub fn get(&self, key: &str) -> (r: Option<String>)
        ensures
            match r {
                Some(v) => map_get(self@, key@) == Some(v@),
                None => map_get(self@, key@) is None,
            },
    {
        proof {
            use_type_invariant(self);
            lemma_pairs_dom(self.entries@, key@);
        }
        match self.find(key) {
            Some(i) => {
                proof {
                    lemma_pairs_value(self.entries@, i as int);
                }
                Some(self.entries[i].1.clone())
            },
            None => None,
        }
    }

    /// Sets the value held for `key`, replacing any earlier one.
    pub fn insert(&mut self, key: String, value: String)
        ensures
            final(self)@ == old(self)@.insert(key@, value@),
    {
        proof {
            use_type_invariant(&*self);
            lemma_pairs_dom(self.entries@, key@);
        }
        let found = self.find(key.as_str());
        let ghost before = self.entries@;
        let mut entries: Vec<(String, String)> = Vec::new();
        std::mem::swap(&mut entries, &mut self.entries);
        assert(entries@ == before);
        match found {
            Some(i) => {
                proof {
                    lemma_pairs_update(before, i as int, value);
                }
                let k = entries[i].0.clone();
                entries.set(i, (k, value));
                assert(entries@ =~= before.update(i as int, (before[i as int].0, value)));
            },
            None => {
                entries.push((key, value));
                assert(entries@.drop_last() =~= before);
                assert(keys_unique(entries@)) by {
                    assert forall|a: int, b: int|
                        0 <= a < entries@.len() && 0 <= b < entries@.len() && a
                            != b implies #[trigger] entries@[a].0@
                        != #[trigger] entries@[b].0@ by {
                        if a < before.len() && b < before.len() {
                            assert(before[a].0@ != before[b].0@);
                        }
                    }
                }
            },
        }
        self.entries = entries;
    }

    /// The number of entries.
    pub fn len(&self) -> (r: usize)
        ensures
            r == self.pairs().len(),
            keys_unique(self.pairs()),
            self@ == pairs_to_map(self.pairs()),
    {
        proof {
            use_type_invariant(self);
        }
        self.entries.len()
    }

    /// The entry at position `i` in insertion order.
    pub fn entry(&self, i: usize) -> (r: (&String, &String))
        requires
            i < self.pairs().len(),
        ensures
            *r.0 == self.pairs()[i as int].0,
            *r.1 == self.pairs()[i as int].1,
    {
        (&self.entries[i].0, &self.entries[i].1)
    }
}

} // verus!
