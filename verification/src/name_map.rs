//! A map from names to values that keeps its keys in first-insertion order.

use vstd::prelude::*;

verus! {

/// The map that a sequence of entries with distinct keys stands for.
pub open spec fn entries_map<V>(es: Seq<(String, V)>) -> Map<Seq<char>, V>
    decreases es.len(),
{
    if es.len() == 0 {
        Map::empty()
    } else {
        entries_map(es.drop_last()).insert(es.last().0@, es.last().1)
    }
}

/// The keys of a sequence of entries, in order.
pub open spec fn entry_keys<V>(es: Seq<(String, V)>) -> Seq<Seq<char>> {
    es.map_values(|e: (String, V)| e.0@)
}

/// No key occurs twice.
pub open spec fn distinct_keys<V>(es: Seq<(String, V)>) -> bool {
    forall|i: int, j: int| 0 <= i < j < es.len() ==> es[i].0@ != es[j].0@
}

pub proof fn lemma_entries_map<V>(es: Seq<(String, V)>)
    requires
        distinct_keys(es),
    ensures
        forall|k: Seq<char>| #[trigger]
            entries_map(es).contains_key(k) <==> exists|i: int| 0 <= i < es.len() && es[i].0@ == k,
        forall|i: int| 0 <= i < es.len() ==> #[trigger] entries_map(es)[es[i].0@] == es[i].1,
    decreases es.len(),
{
    if es.len() > 0 {
        let p = es.drop_last();
        assert(distinct_keys(p));
        lemma_entries_map(p);
        assert forall|k: Seq<char>| #[trigger]
            entries_map(es).contains_key(k) <==> exists|i: int| 0 <= i < es.len() && es[i].0@ == k by {
            if k == es.last().0@ {
                assert(es[es.len() - 1].0@ == k);
            } else {
                if entries_map(es).contains_key(k) {
                    assert(entries_map(p).contains_key(k));
                    let i = choose|i: int| 0 <= i < p.len() && p[i].0@ == k;
                    assert(0 <= i < es.len() && es[i].0@ == k);
                }
                if exists|i: int| 0 <= i < es.len() && es[i].0@ == k {
                    let i = choose|i: int| 0 <= i < es.len() && es[i].0@ == k;
                    assert(i < p.len());
                    assert(p[i].0@ == k);
                    assert(entries_map(p).contains_key(k));
                }
            }
        }
        assert forall|i: int| 0 <= i < es.len() implies #[trigger] entries_map(es)[es[i].0@]
            == es[i].1 by {
            if i < p.len() {
                assert(p[i] == es[i]);
                assert(es[i].0@ != es.last().0@);
                assert(entries_map(p)[p[i].0@] == p[i].1);
            } else {
                assert(es[i] == es.last());
            }
        }
    }
}

/// Every key of the map of `es` is the key of one of its entries.
pub proof fn lemma_entries_map_keys<V>(es: Seq<(String, V)>, k: Seq<char>)
    requires
        entries_map(es).contains_key(k),
    ensures
        exists|j: int| 0 <= j < es.len() && #[trigger] es[j].0@ == k,
    decreases es.len(),
{
    if es.len() > 0 && es.last().0@ != k {
        lemma_entries_map_keys(es.drop_last(), k);
        let j = choose|j: int| 0 <= j < es.drop_last().len() && #[trigger] es.drop_last()[j].0@ == k;
        assert(es[j] == es.drop_last()[j]);
    } else if es.len() > 0 {
        assert(es[es.len() - 1].0@ == k);
    }
}

/// A map from names to values whose keys keep the order in which they were
/// first inserted.
pub struct NameMap<V> {
    entries: Vec<(String, V)>,
}

impl<V> NameMap<V> {
    #[verifier::type_invariant]
    spec fn keys_distinct(self) -> bool {
        distinct_keys(self.entries@)
    }

    /// The entries, in order.
    pub closed spec fn entries(self) -> Seq<(String, V)> {
        self.entries@
    }

    /// The names, in order.
    pub open spec fn names(self) -> Seq<Seq<char>> {
        entry_keys(self.entries())
    }

    /// The map the entries stand for.
    pub open spec fn map(self) -> Map<Seq<char>, V> {
        entries_map(self.entries())
    }

    /// An empty map.
    pub fn new() -> (m: Self)
        ensures
            m.entries() == Seq::<(String, V)>::empty(),
            m.map() == Map::<Seq<char>, V>::empty(),
    {
        NameMap { entries: Vec::new() }
    }

    /// The number of entries. The names are distinct and are exactly the
    /// keys of the map.
    pub fn len(&self) -> (n: usize)
        ensures
            n == self.entries().len(),
            n == self.names().len(),
            self.names().no_duplicates(),
            forall|k: Seq<char>| #[trigger] self.map().contains_key(k) <==> self.names().contains(k),
    {
        proof {
            use_type_invariant(self);
            lemma_entries_map(self.entries@);
            assert forall|k: Seq<char>| #[trigger] self.map().contains_key(k) <==> self.names().contains(k) by {
                if self.map().contains_key(k) {
                    let i = choose|i: int| 0 <= i < self.entries@.len() && self.entries@[i].0@ == k;
                    assert(self.names()[i] == k);
                }
                if self.names().contains(k) {
                    let i = choose|i: int| 0 <= i < self.names().len() && self.names()[i] == k;
                    assert(self.entries@[i].0@ == k);
                }
            }
        }
        self.entries.len()
    }

    /// Whether the map is empty.
    pub fn is_empty(&self) -> (b: bool)
        ensures
            b == (self.entries().len() == 0),
    {
        self.entries.len() == 0
    }

    /// The position of the entry named `key`.
    pub fn position(&self, key: &str) -> (r: Option<usize>)
        ensures
            r matches Some(i) ==> i < self.entries().len() && self.entries()[i as int].0@ == key@,
            r is None ==> forall|i: int|
                0 <= i < self.entries().len() ==> self.entries()[i].0@ != key@,
    {
        let k = String::from_str(key);
        let mut i: usize = 0;
        while i < self.entries.len()
            invariant
                i <= self.entries@.len(),
                k@ == key@,
                forall|j: int| 0 <= j < i ==> self.entries@[j].0@ != key@,
            decreases self.entries@.len() - i,
        {
            if self.entries[i].0 == k {
                return Some(i);
            }
            i = i + 1;
        }
        None
    }

    /// Whether some entry is named `key`.
    pub fn contains_key(&self, key: &str) -> (b: bool)
        ensures
            b == self.map().contains_key(key@),
    {
        proof {
            use_type_invariant(self);
            lemma_entries_map(self.entries@);
        }
        self.position(key).is_some()
    }

    /// The value named `key`.
    pub fn get(&self, key: &str) -> (r: Option<&V>)
        ensures
            r matches Some(v) ==> self.map().contains_key(key@) && self.map()[key@] == *v,
            r is None ==> !self.map().contains_key(key@),
    {
        proof {
            use_type_invariant(self);
            lemma_entries_map(self.entries@);
        }
        match self.position(key) {
            Some(i) => Some(&self.entries[i].1),
            None => None,
        }
    }

    /// The name of the entry at `i`.
    pub fn name_at(&self, i: usize) -> (s: &String)
        requires
            i < self.entries().len(),
        ensures
            *s == self.entries()[i as int].0,
            forall|j: int|
                0 <= j < self.entries().len() && j != i ==> #[trigger] self.entries()[j].0@ != s@,
    {
        proof {
            use_type_invariant(self);
        }
        &self.entries[i].0
    }

    /// The value of the entry at `i`.
    pub fn value_at(&self, i: usize) -> (v: &V)
        requires
            i < self.entries().len(),
        ensures
            *v == self.entries()[i as int].1,
            self.map().contains_key(self.names()[i as int]),
            self.map()[self.names()[i as int]] == *v,
    {
        proof {
            use_type_invariant(self);
            lemma_entries_map(self.entries@);
        }
        &self.entries[i].1
    }

    /// Maps `key` to `value`, replacing an earlier value in its place or
    /// adding a new last entry.
    pub fn insert(&mut self, key: String, value: V)
        ensures
            final(self).map() == old(self).map().insert(key@, value),
            old(self).map().contains_key(key@) ==> final(self).names() == old(self).names(),
            !old(self).map().contains_key(key@) ==> final(self).names() == old(self).names().push(
                key@,
            ),
    {
        proof {
            use_type_invariant(&*self);
            lemma_entries_map(self.entries@);
        }
        let ghost old_es = self.entries();
        match self.position(key.as_str()) {
            Some(i) => {
                let mut es = Vec::new();
                std::mem::swap(&mut es, &mut self.entries);
                proof {
                    lemma_entries_map(old_es);
                }
                es.set(i, (key, value));
                proof {
                    lemma_entries_map_update(old_es, i as int, key, value);
                }
                self.entries = es;
                assert(entry_keys(self.entries@) =~= entry_keys(old_es));
            },
            None => {
                let mut es = Vec::new();
                std::mem::swap(&mut es, &mut self.entries);
                let ghost k = key@;
                es.push((key, value));
                assert(es@.drop_last() =~= old_es);
                assert(distinct_keys(es@)) by {
                    assert forall|a: int, b: int| 0 <= a < b < es@.len() implies es@[a].0@
                        != es@[b].0@ by {
                        if b < old_es.len() {
                            assert(es@[a] == old_es[a] && es@[b] == old_es[b]);
                        } else {
                            assert(es@[a] == old_es[a]);
                            assert(old_es[a].0@ != k);
                        }
                    }
                }
                assert(entry_keys(es@) =~= entry_keys(old_es).push(k));
                self.entries = es;
            },
        }
    }

    /// Removes the entry named `key`, if there is one; the other entries
    /// keep their order.
    pub fn remove(&mut self, key: &str)
        ensures
            final(self).map() == old(self).map().remove(key@),
            !old(self).map().contains_key(key@) ==> final(self).names() == old(self).names(),
            old(self).map().contains_key(key@) ==> exists|p: int|
                0 <= p < old(self).names().len() && old(self).names()[p] == key@
                    && final(self).names() == old(self).names().remove(p),
    {
        proof {
            use_type_invariant(&*self);
            lemma_entries_map(self.entries@);
        }
        let ghost es = self.entries@;
        match self.position(key) {
            Some(i) => {
                let mut v = Vec::new();
                std::mem::swap(&mut v, &mut self.entries);
                v.remove(i);
                let ghost es2 = v@;
                assert(es2 =~= es.remove(i as int));
                assert(distinct_keys(es2)) by {
                    assert forall|a: int, b: int| 0 <= a < b < es2.len() implies es2[a].0@
                        != es2[b].0@ by {
                        let a0 = if a < i {
                            a
                        } else {
                            a + 1
                        };
                        let b0 = if b < i {
                            b
                        } else {
                            b + 1
                        };
                        assert(es2[a] == es[a0] && es2[b] == es[b0]);
                    }
                }
                proof {
                    lemma_entries_map(es2);
                }
                assert(entries_map(es2) =~= entries_map(es).remove(key@)) by {
                    assert forall|k: Seq<char>| #[trigger] entries_map(es2).contains_key(k)
                        <==> entries_map(es).remove(key@).contains_key(k) by {
                        if entries_map(es2).contains_key(k) {
                            let j = choose|j: int| 0 <= j < es2.len() && es2[j].0@ == k;
                            let j0 = if j < i {
                                j
                            } else {
                                j + 1
                            };
                            assert(es2[j] == es[j0]);
                            assert(j0 != i);
                        }
                        if entries_map(es).remove(key@).contains_key(k) {
                            let j = choose|j: int| 0 <= j < es.len() && es[j].0@ == k;
                            assert(j != i);
                            let j2 = if j < i {
                                j
                            } else {
                                j - 1
                            };
                            assert(es2[j2] == es[j]);
                        }
                    }
                    assert forall|k: Seq<char>| #[trigger] entries_map(es2).contains_key(k) implies entries_map(
                        es2,
                    )[k] == entries_map(es).remove(key@)[k] by {
                        let j = choose|j: int| 0 <= j < es2.len() && es2[j].0@ == k;
                        let j0 = if j < i {
                            j
                        } else {
                            j + 1
                        };
                        assert(es2[j] == es[j0]);
                        assert(entries_map(es2)[es2[j].0@] == es2[j].1);
                        assert(entries_map(es)[es[j0].0@] == es[j0].1);
                    }
                }
                assert(entry_keys(es2) =~= entry_keys(es).remove(i as int));
                assert(entry_keys(es)[i as int] == key@);
                self.entries = v;
                assert(old(self).names()[i as int] == key@ && self.names() == old(self).names().remove(
                    i as int,
                ));
            },
            None => {
                proof {
                    if entries_map(es).contains_key(key@) {
                        let j = choose|j: int| 0 <= j < es.len() && es[j].0@ == key@;
                        assert(self.entries()[j].0@ != key@);
                    }
                }
            },
        }
    }

    /// Maps `key` to `value` when `key` has no entry yet.
    pub fn insert_if_absent(&mut self, key: String, value: V)
        ensures
            old(self).map().contains_key(key@) ==> final(self).map() == old(self).map()
                && final(self).names() == old(self).names(),
            !old(self).map().contains_key(key@) ==> final(self).map() == old(self).map().insert(
                key@,
                value,
            ) && final(self).names() == old(self).names().push(key@),
    {
        if !self.contains_key(key.as_str()) {
            self.insert(key, value);
        }
    }
}

pub proof fn lemma_entries_map_update<V>(es: Seq<(String, V)>, i: int, key: String, value: V)
    requires
        distinct_keys(es),
        0 <= i < es.len(),
        es[i].0@ == key@,
    ensures
        distinct_keys(es.update(i, (key, value))),
        entries_map(es.update(i, (key, value))) == entries_map(es).insert(key@, value),
{
    let es2 = es.update(i, (key, value));
    assert(distinct_keys(es2));
    lemma_entries_map(es);
    lemma_entries_map(es2);
    assert(entries_map(es2) =~= entries_map(es).insert(key@, value)) by {
        assert forall|k: Seq<char>| #[trigger] entries_map(es2).contains_key(k)
            <==> entries_map(es).insert(key@, value).contains_key(k) by {
            if exists|j: int| 0 <= j < es.len() && es[j].0@ == k {
                let j = choose|j: int| 0 <= j < es.len() && es[j].0@ == k;
                assert(es2[j].0@ == k);
            }
            if exists|j: int| 0 <= j < es2.len() && es2[j].0@ == k {
                let j = choose|j: int| 0 <= j < es2.len() && es2[j].0@ == k;
                assert(es[j].0@ == k);
            }
        }
        assert forall|k: Seq<char>| #[trigger] entries_map(es2).contains_key(k) implies entries_map(
            es2,
        )[k] == entries_map(es).insert(key@, value)[k] by {
            let j = choose|j: int| 0 <= j < es2.len() && es2[j].0@ == k;
            assert(entries_map(es2)[es2[j].0@] == es2[j].1);
            if j != i {
                assert(entries_map(es)[es[j].0@] == es[j].1);
            }
        }
    }
}

} // verus!
