//! A finite map kept as a list of entries in which no key occurs twice.
use crate::text::same_text;
use vstd::prelude::*;

verus! {

/// A key of an [`AssocMap`]: two keys are the same key when their views are equal.
pub trait MapKey: View + Sized {
    /// Whether two keys are the same key.
    fn same_key(&self, other: &Self) -> (r: bool)
        ensures
            r == (self@ == other@),
    ;
}

impl MapKey for String {
    fn same_key(&self, other: &Self) -> (r: bool) {
        same_text(self.as_str(), other.as_str())
    }
}

/// A map from keys to values.
#[derive(Debug)]
pub struct AssocMap<K: MapKey, V> {
    entries: Vec<(K, V)>,
}

/// Position `i` holds the entry of key `k`.
spec fn entry_at<K: MapKey, V>(entries: Seq<(K, V)>, i: int, k: K::V) -> bool {
    0 <= i < entries.len() && entries[i].0@ == k
}

spec fn no_key_twice<K: MapKey, V>(entries: Seq<(K, V)>) -> bool {
    forall|i: int, j: int|
        0 <= i < entries.len() && 0 <= j < entries.len() && entries[i].0@ == entries[j].0@
            ==> i == j
}

spec fn entries_map<K: MapKey, V>(entries: Seq<(K, V)>) -> Map<K::V, V> {
    Map::new(
        |k: K::V| exists|i: int| entry_at(entries, i, k),
        |k: K::V| entries[choose|i: int| entry_at(entries, i, k)].1,
    )
}

impl<K: MapKey, V> View for AssocMap<K, V> {
    type V = Map<K::V, V>;

    closed spec fn view(&self) -> Map<K::V, V> {
        entries_map(self.entries@)
    }
}

impl<K: MapKey, V> AssocMap<K, V> {
    #[verifier::type_invariant]
    spec fn inv(self) -> bool {
        no_key_twice(self.entries@)
    }

    /// The map without entries.
    pub fn new() -> (r: Self)
        ensures
            r@ == Map::<K::V, V>::empty(),
    {
        let entries: Vec<(K, V)> = Vec::new();
        assert(entries_map(entries@) =~= Map::<K::V, V>::empty());
        AssocMap { entries }
    }

    /// Whether the map has no entry.
    pub fn is_empty(&self) -> (r: bool)
        ensures
            r == (self@ == Map::<K::V, V>::empty()),
    {
        proof {
            if self.entries@.len() > 0 {
                assert(entry_at(self.entries@, 0, self.entries@[0].0@));
                assert(self@.contains_key(self.entries@[0].0@));
            } else {
                assert(self@ =~= Map::<K::V, V>::empty());
            }
        }
        self.entries.len() == 0
    }

    fn position(&self, key: &K) -> (r: Option<usize>)
        ensures
            match r {
                Some(i) => entry_at(self.entries@, i as int, key@),
                None => !self@.contains_key(key@),
            },
    {
        let mut i: usize = 0;
        while i < self.entries.len()
            invariant
                i <= self.entries@.len(),
                forall|j: int| 0 <= j < i ==> !entry_at(self.entries@, j, key@),
            decreases self.entries.len() - i,
        {
            if self.entries[i].0.same_key(key) {
                return Some(i);
            }
            i += 1;
        }
        None
    }

    /// The value of a key.
    pub fn get(&self, key: &K) -> (r: Option<&V>)
        ensures
            match r {
                Some(v) => self@.contains_key(key@) && *v == self@[key@],
                None => !self@.contains_key(key@),
            },
    {
        proof {
            use_type_invariant(self);
        }
        match self.position(key) {
            Some(i) => {
                assert(self@.contains_key(key@));
                Some(&self.entries[i].1)
            },
            None => None,
        }
    }

    /// The map in which the key has the value, and every other key what it had.
    pub fn insert(self, key: K, value: V) -> (r: Self)
        ensures
            r@ == self@.insert(key@, value),
    {
        proof {
            use_type_invariant(&self);
        }
        let found = self.position(&key);
        let ghost before = self.entries@;
        let ghost k = key@;
        let mut entries = self.entries;
        match found {
            Some(i) => {
                entries[i] = (key, value);
                proof {
                    assert forall|x: K::V| #[trigger]
                        entries_map(entries@).contains_key(x) == entries_map(before).insert(
                            k,
                            value,
                        ).contains_key(x) by {
                        if exists|j: int| entry_at(entries@, j, x) {
                            let j = choose|j: int| entry_at(entries@, j, x);
                            assert(entry_at(before, j, x));
                        }
                        if exists|j: int| entry_at(before, j, x) {
                            let j = choose|j: int| entry_at(before, j, x);
                            assert(entry_at(entries@, j, x));
                        }
                        assert(entry_at(entries@, i as int, k));
                    }
                    assert(no_key_twice(entries@)) by {
                        assert forall|a: int, b: int|
                            0 <= a < entries@.len() && 0 <= b < entries@.len() && entries@[a].0@
                                == entries@[b].0@ implies a == b by {
                            assert(before[a].0@ == before[b].0@);
                        }
                    }
                    assert forall|x: K::V| #[trigger]
                        entries_map(entries@).contains_key(x) implies entries_map(entries@)[x]
                        == entries_map(before).insert(k, value)[x] by {
                        let j = choose|j: int| entry_at(entries@, j, x);
                        assert(entry_at(before, j, x));
                        if x == k {
                            assert(entry_at(entries@, i as int, x));
                        } else {
                            let j2 = choose|j: int| entry_at(before, j, x);
                            assert(j2 == j);
                        }
                    }
                    assert(entries_map(entries@) =~= entries_map(before).insert(k, value));
                }
            },
            None => {
                entries.push((key, value));
                proof {
                    let n = before.len() as int;
                    assert(entry_at(entries@, n, k));
                    assert forall|x: K::V| #[trigger]
                        entries_map(entries@).contains_key(x) == entries_map(before).insert(
                            k,
                            value,
                        ).contains_key(x) by {
                        if exists|j: int| entry_at(entries@, j, x) {
                            let j = choose|j: int| entry_at(entries@, j, x);
                            if j < n {
                                assert(entry_at(before, j, x));
                            }
                        }
                        if exists|j: int| entry_at(before, j, x) {
                            let j = choose|j: int| entry_at(before, j, x);
                            assert(entry_at(entries@, j, x));
                        }
                    }
                    assert(no_key_twice(entries@)) by {
                        assert forall|a: int, b: int|
                            0 <= a < entries@.len() && 0 <= b < entries@.len() && entries@[a].0@
                                == entries@[b].0@ implies a == b by {
                            if a < n && b == n {
                                assert(entry_at(before, a, k));
                            }
                            if b < n && a == n {
                                assert(entry_at(before, b, k));
                            }
                        }
                    }
                    assert forall|x: K::V| #[trigger]
                        entries_map(entries@).contains_key(x) implies entries_map(entries@)[x]
                        == entries_map(before).insert(k, value)[x] by {
                        let j = choose|j: int| entry_at(entries@, j, x);
                        if x != k {
                            assert(entry_at(before, j, x));
                            let j2 = choose|j: int| entry_at(before, j, x);
                            assert(j2 == j);
                        }
                    }
                    assert(entries_map(entries@) =~= entries_map(before).insert(k, value));
                }
            },
        }
        AssocMap { entries }
    }
}

} // verus!
