//! A finite map held as a vector of entries, used for keyed ledger slots.

use vstd::prelude::*;
use crate::address::Address;

verus! {

/// A key of a ledger slot: compared by its view.
pub trait LedgerKey: View + Sized {
    /// Whether two keys name the same slot.
    fn key_eq(&self, other: &Self) -> (r: bool)
        ensures
            r == (self@ == other@);

    /// Returns a copy of the key.
    fn key_clone(&self) -> (r: Self)
        ensures
            r@ == self@;
}

impl LedgerKey for Address {
    fn key_eq(&self, other: &Self) -> (r: bool) {
        self.same(other)
    }

    fn key_clone(&self) -> (r: Self) {
        self.duplicate()
    }
}

impl LedgerKey for String {
    fn key_eq(&self, other: &Self) -> (r: bool) {
        *self == *other
    }

    fn key_clone(&self) -> (r: Self) {
        self.clone()
    }
}

impl LedgerKey for u64 {
    fn key_eq(&self, other: &Self) -> (r: bool) {
        *self == *other
    }

    fn key_clone(&self) -> (r: Self) {
        *self
    }
}

impl<A: LedgerKey, B: LedgerKey> LedgerKey for (A, B) {
    fn key_eq(&self, other: &Self) -> (r: bool) {
        let a = self.0.key_eq(&other.0);
        let b = self.1.key_eq(&other.1);
        a && b
    }

    fn key_clone(&self) -> (r: Self) {
        (self.0.key_clone(), self.1.key_clone())
    }
}

/// A finite map from keys (by view) to values.
pub struct LedgerMap<K: LedgerKey, V> {
    entries: Vec<(K, V)>,
    contents: Ghost<Map<K::V, V>>,
}

/// `entries` lists each key of `m` exactly once, with its value.
spec fn entries_match<K: LedgerKey, V>(entries: Seq<(K, V)>, m: Map<K::V, V>) -> bool {
    &&& forall|i: int| 0 <= i < entries.len() ==>
        #[trigger] m.contains_key(entries[i].0@) && m[entries[i].0@] == entries[i].1
    &&& forall|k: K::V| #[trigger] m.contains_key(k) ==>
        exists|i: int| 0 <= i < entries.len() && #[trigger] entries[i].0@ == k
    &&& forall|i: int, j: int| 0 <= i < entries.len() && 0 <= j < entries.len()
        && i != j ==> #[trigger] entries[i].0@ != #[trigger] entries[j].0@
}

impl<K: LedgerKey, V> View for LedgerMap<K, V> {
    type V = Map<K::V, V>;

    closed spec fn view(&self) -> Map<K::V, V> {
        self.contents@
    }
}

impl<K: LedgerKey, V> LedgerMap<K, V> {
    /// The map's internal consistency: the entries list each key once and
    /// list exactly the keys of the map, with their values.
    #[verifier::type_invariant]
    closed spec fn consistent(self) -> bool {
        entries_match::<K, V>(self.entries@, self.contents@)
    }

    /// An empty map.
    pub fn new() -> (r: Self)
        ensures
            r@ == Map::<K::V, V>::empty(),
    {
        LedgerMap { entries: Vec::new(), contents: Ghost(Map::empty()) }
    }

    /// The number of keys in the map.
    pub fn len(&self) -> (r: usize)
        ensures
            r == self@.len(),
            self@.dom().finite(),
    {
        proof {
            use_type_invariant(self);
            self.lemma_dom_is_keys();
        }
        self.entries.len()
    }

    proof fn lemma_dom_is_keys(&self)
        requires
            self.consistent(),
        ensures
            self@.dom() == self.entries@.map_values(|e: (K, V)| e.0@).to_set(),
            self@.dom().finite(),
            self@.len() == self.entries@.len(),
    {
        let ks = self.entries@.map_values(|e: (K, V)| e.0@);
        assert forall|k: K::V| self@.dom().contains(k) <==> ks.to_set().contains(k) by {
            if self@.dom().contains(k) {
                let i = choose|i: int| 0 <= i < self.entries@.len() && self.entries@[i].0@ == k;
                assert(ks[i] == k);
            }
            if ks.to_set().contains(k) {
                let i = choose|i: int| 0 <= i < ks.len() && ks[i] == k;
                assert(self.contents@.contains_key(self.entries@[i].0@));
            }
        }
        assert(self@.dom() =~= ks.to_set());
        assert(ks.no_duplicates()) by {
            assert forall|i: int, j: int| 0 <= i < ks.len() && 0 <= j < ks.len() && i != j
                implies ks[i] != ks[j] by {
                assert(self.entries@[i].0@ != self.entries@[j].0@);
            }
        }
        ks.unique_seq_to_set();
    }

    /// Finds the position of `key` among the entries.
    fn find(&self, key: &K) -> (r: Option<usize>)
        requires
            self.consistent(),
        ensures
            match r {
                Some(i) => i < self.entries@.len() && self.entries@[i as int].0@ == key@,
                None => !self@.contains_key(key@),
            },
    {
        let mut i: usize = 0;
        while i < self.entries.len()
            invariant
                self.consistent(),
                i <= self.entries@.len(),
                forall|j: int| 0 <= j < i ==> self.entries@[j].0@ != key@,
            decreases self.entries@.len() - i,
        {
            if self.entries[i].0.key_eq(key) {
                return Some(i);
            }
            i = i + 1;
        }
        None
    }

    /// Whether the map has a value under `key`.
    pub fn contains_key(&self, key: &K) -> (r: bool)
        ensures
            r == self@.contains_key(key@),
    {
        proof {
            use_type_invariant(self);
        }
        match self.find(key) {
            Some(i) => true,
            None => false,
        }
    }

    /// The value under `key`, if any.
    pub fn get(&self, key: &K) -> (r: Option<&V>)
        ensures
            r is Some <==> self@.contains_key(key@),
            r matches Some(v) ==> *v == self@[key@],
    {
        proof {
            use_type_invariant(self);
        }
        match self.find(key) {
            Some(i) => {
                assert(self.contents@.contains_key(self.entries@[i as int].0@));
                Some(&self.entries[i].1)
            },
            None => None,
        }
    }

    /// Stores `value` under `key`, replacing any previous value.
    pub fn set(&mut self, key: K, value: V)
        ensures
            final(self)@ == old(self)@.insert(key@, value),
    {
        let mut taken = LedgerMap::new();
        std::mem::swap(&mut taken, self);
        proof {
            use_type_invariant(&taken);
        }
        let ghost old_entries = taken.entries@;
        let ghost old_contents = taken.contents@;
        let ghost new_contents = old_contents.insert(key@, value);
        let found = taken.find(&key);
        let LedgerMap { mut entries, contents: _ } = taken;
        match found {
            Some(i) => {
                entries.set(i, (key, value));
                proof {
                    assert forall|a: int| 0 <= a < entries@.len() implies
                        #[trigger] entries@[a].0@ == old_entries[a].0@ by {}
                    assert forall|j: int| 0 <= j < entries@.len() implies
                        #[trigger] new_contents.contains_key(entries@[j].0@)
                        && new_contents[entries@[j].0@] == entries@[j].1 by {
                        if j != i {
                            assert(old_entries[j].0@ != old_entries[i as int].0@);
                        }
                    }
                    assert forall|k: K::V| #[trigger] new_contents.contains_key(k) implies
                        exists|j: int| 0 <= j < entries@.len() && entries@[j].0@ == k by {
                        if k == key@ {
                            assert(entries@[i as int].0@ == k);
                        } else {
                            assert(old_contents.contains_key(k));
                            let j = choose|j: int| 0 <= j < old_entries.len() && old_entries[j].0@ == k;
                            assert(entries@[j].0@ == k);
                        }
                    }
                }
                assert(entries_match::<K, V>(entries@, new_contents));
                *self = LedgerMap { entries, contents: Ghost(new_contents) };
            },
            None => {
                entries.push((key, value));
                proof {
                    let n = old_entries.len() as int;
                    assert forall|j: int| 0 <= j < entries@.len() implies
                        #[trigger] new_contents.contains_key(entries@[j].0@)
                        && new_contents[entries@[j].0@] == entries@[j].1 by {
                        if j < n {
                            assert(old_contents.contains_key(old_entries[j].0@));
                            assert(old_entries[j].0@ != key@);
                        }
                    }
                    assert forall|k: K::V| #[trigger] new_contents.contains_key(k) implies
                        exists|j: int| 0 <= j < entries@.len() && entries@[j].0@ == k by {
                        if k == key@ {
                            assert(entries@[n].0@ == k);
                        } else {
                            assert(old_contents.contains_key(k));
                            let j = choose|j: int| 0 <= j < old_entries.len() && old_entries[j].0@ == k;
                            assert(entries@[j].0@ == k);
                        }
                    }
                    assert forall|a: int, b: int| 0 <= a < entries@.len() && 0 <= b < entries@.len()
                        && a != b implies entries@[a].0@ != entries@[b].0@ by {
                        if a < n && b < n {
                        } else if a < n {
                            assert(old_contents.contains_key(old_entries[a].0@));
                        } else {
                            assert(old_contents.contains_key(old_entries[b].0@));
                        }
                    }
                }
                assert(entries_match::<K, V>(entries@, new_contents));
                *self = LedgerMap { entries, contents: Ghost(new_contents) };
            },
        }
    }

    /// Removes the value under `key`, if any.
    pub fn remove(&mut self, key: &K)
        ensures
            final(self)@ == old(self)@.remove(key@),
    {
        let mut taken = LedgerMap::new();
        std::mem::swap(&mut taken, self);
        proof {
            use_type_invariant(&taken);
        }
        let ghost old_entries = taken.entries@;
        let ghost old_contents = taken.contents@;
        let ghost new_contents = old_contents.remove(key@);
        let found = taken.find(key);
        let LedgerMap { mut entries, contents: _ } = taken;
        match found {
            Some(i) => {
                let _removed = entries.remove(i);
                proof {
                    assert forall|j: int| 0 <= j < entries@.len() implies
                        #[trigger] new_contents.contains_key(entries@[j].0@)
                        && new_contents[entries@[j].0@] == entries@[j].1 by {
                        let oj = if j < i { j } else { j + 1 };
                        assert(entries@[j] == old_entries[oj]);
                        assert(old_entries[oj].0@ != old_entries[i as int].0@);
                        assert(old_contents.contains_key(old_entries[oj].0@));
                    }
                    assert forall|k: K::V| #[trigger] new_contents.contains_key(k) implies
                        exists|j: int| 0 <= j < entries@.len() && entries@[j].0@ == k by {
                        assert(old_contents.contains_key(k));
                        let oj = choose|j: int| 0 <= j < old_entries.len() && old_entries[j].0@ == k;
                        assert(oj != i);
                        if oj < i {
                            assert(entries@[oj].0@ == k);
                        } else {
                            assert(entries@[oj - 1].0@ == k);
                        }
                    }
                    assert forall|a: int, b: int| 0 <= a < entries@.len() && 0 <= b < entries@.len()
                        && a != b implies entries@[a].0@ != entries@[b].0@ by {
                        let oa = if a < i { a } else { a + 1 };
                        let ob = if b < i { b } else { b + 1 };
                        assert(entries@[a] == old_entries[oa]);
                        assert(entries@[b] == old_entries[ob]);
                    }
                }
                assert(entries_match::<K, V>(entries@, new_contents));
                *self = LedgerMap { entries, contents: Ghost(new_contents) };
            },
            None => {
                assert(new_contents =~= old_contents);
                assert(entries_match::<K, V>(entries@, new_contents));
                *self = LedgerMap { entries, contents: Ghost(new_contents) };
            },
        }
    }

    /// Removes the value under `key` and returns it.
    pub fn take(&mut self, key: &K) -> (r: Option<V>)
        ensures
            r is Some <==> old(self)@.contains_key(key@),
            r matches Some(v) ==> v == old(self)@[key@],
            final(self)@ == old(self)@.remove(key@),
    {
        let mut taken = LedgerMap::new();
        std::mem::swap(&mut taken, self);
        proof {
            use_type_invariant(&taken);
        }
        let ghost old_entries = taken.entries@;
        let ghost old_contents = taken.contents@;
        let ghost new_contents = old_contents.remove(key@);
        let found = taken.find(key);
        let LedgerMap { mut entries, contents: _ } = taken;
        match found {
            Some(i) => {
                proof {
                    assert(old_contents.contains_key(old_entries[i as int].0@));
                }
                let removed = entries.remove(i);
                proof {
                    assert forall|j: int| 0 <= j < entries@.len() implies
                        #[trigger] new_contents.contains_key(entries@[j].0@)
                        && new_contents[entries@[j].0@] == entries@[j].1 by {
                        let oj = if j < i { j } else { j + 1 };
                        assert(entries@[j] == old_entries[oj]);
                        assert(old_entries[oj].0@ != old_entries[i as int].0@);
                        assert(old_contents.contains_key(old_entries[oj].0@));
                    }
                    assert forall|k: K::V| #[trigger] new_contents.contains_key(k) implies
                        exists|j: int| 0 <= j < entries@.len() && entries@[j].0@ == k by {
                        assert(old_contents.contains_key(k));
                        let oj = choose|j: int| 0 <= j < old_entries.len() && old_entries[j].0@ == k;
                        assert(oj != i);
                        if oj < i {
                            assert(entries@[oj].0@ == k);
                        } else {
                            assert(entries@[oj - 1].0@ == k);
                        }
                    }
                    assert forall|a: int, b: int| 0 <= a < entries@.len() && 0 <= b < entries@.len()
                        && a != b implies entries@[a].0@ != entries@[b].0@ by {
                        let oa = if a < i { a } else { a + 1 };
                        let ob = if b < i { b } else { b + 1 };
                        assert(entries@[a] == old_entries[oa]);
                        assert(entries@[b] == old_entries[ob]);
                    }
                    assert(entries_match::<K, V>(entries@, new_contents));
                }
                *self = LedgerMap { entries, contents: Ghost(new_contents) };
                Some(removed.1)
            },
            None => {
                assert(new_contents =~= old_contents);
                *self = LedgerMap { entries, contents: Ghost(new_contents) };
                None
            },
        }
    }
}

impl<K: LedgerKey, V: Copy> LedgerMap<K, V> {
    /// A copy of the map.
    pub fn duplicate(&self) -> (r: Self)
        ensures
            r@ == self@,
    {
        proof {
            use_type_invariant(self);
        }
        let mut entries: Vec<(K, V)> = Vec::new();
        let mut i: usize = 0;
        while i < self.entries.len()
            invariant
                entries_match::<K, V>(self.entries@, self.contents@),
                i <= self.entries@.len(),
                entries@.len() == i,
                forall|j: int| 0 <= j < i ==> (#[trigger] entries@[j]).0@ == self.entries@[j].0@
                    && entries@[j].1 == self.entries@[j].1,
            decreases self.entries@.len() - i,
        {
            let e = &self.entries[i];
            entries.push((e.0.key_clone(), e.1));
            i = i + 1;
        }
        proof {
            let c = self.contents@;
            assert forall|j: int| 0 <= j < entries@.len() implies
                #[trigger] c.contains_key(entries@[j].0@) && c[entries@[j].0@] == entries@[j].1 by {
                assert(c.contains_key(self.entries@[j].0@));
            }
            assert forall|k: K::V| #[trigger] c.contains_key(k) implies
                exists|j: int| 0 <= j < entries@.len() && entries@[j].0@ == k by {
                let j = choose|j: int| 0 <= j < self.entries@.len() && self.entries@[j].0@ == k;
                assert(entries@[j].0@ == k);
            }
            assert forall|a: int, b: int| 0 <= a < entries@.len() && 0 <= b < entries@.len()
                && a != b implies entries@[a].0@ != entries@[b].0@ by {
                assert(self.entries@[a].0@ != self.entries@[b].0@);
            }
            assert(entries_match::<K, V>(entries@, c));
        }
        LedgerMap { entries, contents: Ghost(self.contents@) }
    }
}

} // verus!
