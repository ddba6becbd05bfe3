//! A small map from task ids to values, held as a list of entries with
//! distinct keys.
use vstd::prelude::*;

use crate::text::str_eq;

verus! {

broadcast use vstd::string::group_string_axioms;

/// No key occurs in two entries.
pub open spec fn keys_distinct<V>(es: Seq<(String, V)>) -> bool {
    forall|i: int, j: int| 0 <= i < j < es.len() ==> (#[trigger] es[i]).0@ != (#[trigger] es[j]).0@
}

/// Some entry has the key `k`.
pub open spec fn has_key_in<V>(es: Seq<(String, V)>, k: Seq<char>) -> bool {
    exists|i: int| 0 <= i < es.len() && (#[trigger] es[i]).0@ == k
}

/// The map that the entries stand for.
pub open spec fn map_of<V>(es: Seq<(String, V)>) -> Map<Seq<char>, V> {
    Map::new(
        |k: Seq<char>| has_key_in(es, k),
        |k: Seq<char>| es[choose|i: int| 0 <= i < es.len() && (#[trigger] es[i]).0@ == k].1,
    )
}

/// With distinct keys, each entry is the map's value for its key.
pub proof fn lemma_entry<V>(es: Seq<(String, V)>, i: int)
    requires
        keys_distinct(es),
        0 <= i < es.len(),
    ensures
        map_of(es).contains_key(es[i].0@),
        map_of(es)[es[i].0@] == es[i].1,
{
    let k = es[i].0@;
    assert(has_key_in(es, k));
    let j = choose|j: int| 0 <= j < es.len() && (#[trigger] es[j]).0@ == k;
    if j != i {
        if j < i {
            assert(es[j].0@ != es[i].0@);
        } else {
            assert(es[i].0@ != es[j].0@);
        }
    }
}

/// Removing the entry `i` removes its key from the map.
proof fn lemma_remove_entry<V>(es: Seq<(String, V)>, i: int)
    requires
        keys_distinct(es),
        0 <= i < es.len(),
    ensures
        keys_distinct(es.remove(i)),
        map_of(es.remove(i)) == map_of(es).remove(es[i].0@),
{
    let key = es[i].0@;
    let ne = es.remove(i);
    assert forall|a: int, b: int| 0 <= a < b < ne.len() implies (#[trigger] ne[a]).0@ != (
    #[trigger] ne[b]).0@ by {
        let a2 = if a < i {
            a
        } else {
            a + 1
        };
        let b2 = if b < i {
            b
        } else {
            b + 1
        };
        assert(ne[a] == es[a2]);
        assert(ne[b] == es[b2]);
        assert(es[a2].0@ != es[b2].0@);
    }
    assert forall|k: Seq<char>|
        #![trigger map_of(ne).contains_key(k)]
        map_of(ne).contains_key(k) <==> map_of(es).remove(key).contains_key(k) by {
        if has_key_in(ne, k) {
            let j = choose|j: int| 0 <= j < ne.len() && (#[trigger] ne[j]).0@ == k;
            let j2 = if j < i {
                j
            } else {
                j + 1
            };
            assert(es[j2] == ne[j]);
            assert(has_key_in(es, k));
            if k == key {
                if j2 < i {
                    assert(es[j2].0@ != es[i].0@);
                } else {
                    assert(es[i].0@ != es[j2].0@);
                }
            }
        }
        if map_of(es).remove(key).contains_key(k) {
            let j = choose|j: int| 0 <= j < es.len() && (#[trigger] es[j]).0@ == k;
            assert(j != i);
            let j2 = if j < i {
                j
            } else {
                j - 1
            };
            assert(ne[j2] == es[j]);
            assert(has_key_in(ne, k));
        }
    }
    assert forall|k: Seq<char>| #[trigger]
        map_of(ne).contains_key(k) implies map_of(ne)[k] == map_of(es).remove(key)[k] by {
        let j = choose|j: int| 0 <= j < ne.len() && (#[trigger] ne[j]).0@ == k;
        lemma_entry(ne, j);
        let j2 = if j < i {
            j
        } else {
            j + 1
        };
        assert(es[j2] == ne[j]);
        lemma_entry(es, j2);
    }
    assert(map_of(ne) =~= map_of(es).remove(key));
}

/// Adding an entry with a key that is not there adds it to the map.
proof fn lemma_push_entry<V>(es: Seq<(String, V)>, key: String, v: V)
    requires
        keys_distinct(es),
        !map_of(es).contains_key(key@),
    ensures
        keys_distinct(es.push((key, v))),
        map_of(es.push((key, v))) == map_of(es).insert(key@, v),
{
    let k0 = key@;
    let ne = es.push((key, v));
    assert forall|a: int, b: int| 0 <= a < b < ne.len() implies (#[trigger] ne[a]).0@ != (
    #[trigger] ne[b]).0@ by {
        if b == ne.len() - 1 {
            assert(ne[a] == es[a]);
            assert(has_key_in(es, es[a].0@));
        } else {
            assert(ne[a] == es[a] && ne[b] == es[b]);
        }
    }
    assert forall|k: Seq<char>|
        #![trigger map_of(ne).contains_key(k)]
        map_of(ne).contains_key(k) <==> map_of(es).insert(k0, v).contains_key(k) by {
        if has_key_in(ne, k) {
            let j = choose|j: int| 0 <= j < ne.len() && (#[trigger] ne[j]).0@ == k;
            if j < es.len() {
                assert(ne[j] == es[j]);
                assert(has_key_in(es, k));
            }
        }
        if has_key_in(es, k) {
            let j = choose|j: int| 0 <= j < es.len() && (#[trigger] es[j]).0@ == k;
            assert(ne[j] == es[j]);
            assert(has_key_in(ne, k));
        }
        if k == k0 {
            assert(ne[es.len() as int].0@ == k0);
            assert(has_key_in(ne, k));
        }
    }
    assert forall|k: Seq<char>| #[trigger]
        map_of(ne).contains_key(k) implies map_of(ne)[k] == map_of(es).insert(k0, v)[k] by {
        let j = choose|j: int| 0 <= j < ne.len() && (#[trigger] ne[j]).0@ == k;
        lemma_entry(ne, j);
        if j < es.len() {
            assert(ne[j] == es[j]);
            lemma_entry(es, j);
        } else {
            assert(k == k0);
        }
    }
    assert(map_of(ne) =~= map_of(es).insert(k0, v));
}

/// Values keyed by strings; each key occurs in at most one entry.
pub struct KeyedVec<V> {
    entries: Vec<(String, V)>,
}

impl<V> KeyedVec<V> {
    /// No key occurs twice.
    #[verifier::type_invariant]
    spec fn inv(&self) -> bool {
        keys_distinct(self.entries@)
    }

    /// The map that the entries stand for.
    pub closed spec fn map(&self) -> Map<Seq<char>, V> {
        map_of(self.entries@)
    }

    /// An empty map.
    pub fn new() -> (r: Self)
        ensures
            r.map() == Map::<Seq<char>, V>::empty(),
    {
        let r = KeyedVec { entries: Vec::new() };
        proof {
            assert(r.map() =~= Map::<Seq<char>, V>::empty());
        }
        r
    }

    fn find(&self, key: &str) -> (r: Option<usize>)
        ensures
            r matches Some(i) ==> i < self.entries@.len() && self.entries@[i as int].0@ == key@,
            r is None ==> !self.map().contains_key(key@),
    {
        for i in 0..self.entries.len()
            invariant
                forall|j: int| 0 <= j < i ==> (#[trigger] self.entries@[j]).0@ != key@,
        {
            if str_eq(self.entries[i].0.as_str(), key) {
                return Some(i);
            }
        }
        None
    }

    /// Whether `key` has a value.
    pub fn contains(&self, key: &str) -> (r: bool)
        ensures
            r == self.map().contains_key(key@),
    {
        proof {
            use_type_invariant(self);
        }
        match self.find(key) {
            Some(i) => {
                proof {
                    lemma_entry(self.entries@, i as int);
                }
                true
            },
            None => false,
        }
    }

    /// Take out the value of `key`, if it has one.
    pub fn remove(&mut self, key: &str) -> (r: Option<V>)
        ensures
            final(self).map() == old(self).map().remove(key@),
            r matches Some(v) ==> old(self).map().contains_key(key@) && old(self).map()[key@] == v,
            r is None ==> !old(self).map().contains_key(key@),
    {
        proof {
            use_type_invariant(&*self);
        }
        match self.find(key) {
            None => {
                proof {
                    assert(self.map() =~= self.map().remove(key@));
                }
                None
            },
            Some(i) => {
                let mut entries: Vec<(String, V)> = Vec::new();
                std::mem::swap(&mut entries, &mut self.entries);
                let ghost es = entries@;
                proof {
                    lemma_entry(es, i as int);
                    lemma_remove_entry(es, i as int);
                }
                let (_, v) = entries.remove(i);
                self.entries = entries;
                Some(v)
            },
        }
    }

    /// Set the value of `key` to `v`.
    pub fn insert(&mut self, key: String, v: V)
        ensures
            final(self).map() == old(self).map().insert(key@, v),
    {
        let _ = self.remove(key.as_str());
        proof {
            use_type_invariant(&*self);
        }
        let mut entries: Vec<(String, V)> = Vec::new();
        std::mem::swap(&mut entries, &mut self.entries);
        let ghost es = entries@;
        proof {
            lemma_push_entry(es, key, v);
        }
        entries.push((key, v));
        self.entries = entries;
    }
}

} // verus!
