//! Sets of strings and maps keyed by strings, kept in insertion order.
//!
//! Both are viewed as mathematical sets and maps over character sequences.
//! A key that is stored more than once counts at its first position only.

use vstd::prelude::*;
use crate::text::same_text;

verus! {

/// A set of strings.
#[derive(Debug, Clone, PartialEq, Eq)]
pub struct StringSet {
    pub items: Vec<String>,
}

impl View for StringSet {
    type V = Set<Seq<char>>;

    open spec fn view(&self) -> Set<Seq<char>> {
        Set::new(
            |s: Seq<char>| exists|i: int| 0 <= i < self.items@.len() && #[trigger] self.items@[i]@ == s,
        )
    }
}

impl StringSet {
    /// No string is stored twice.
    pub open spec fn wf(&self) -> bool {
        forall|i: int, j: int|
            0 <= i < j < self.items@.len() ==> #[trigger] self.items@[i]@ != #[trigger] self.items@[j]@
    }

    /// The empty set.
    pub fn new() -> (set: Self)
        ensures
            set@ == Set::<Seq<char>>::empty(),
            set.wf(),
            set.items@.len() == 0,
    {
        let set = StringSet { items: Vec::new() };
        assert(set@ =~= Set::<Seq<char>>::empty());
        set
    }

    /// Whether `item` is a member.
    pub fn contains(&self, item: &str) -> (found: bool)
        ensures
            found == self@.contains(item@),
    {
        let mut i: usize = 0;
        while i < self.items.len()
            invariant
                i <= self.items@.len(),
                forall|j: int| 0 <= j < i ==> #[trigger] self.items@[j]@ != item@,
            decreases self.items@.len() - i,
        {
            if same_text(self.items[i].as_str(), item) {
                return true;
            }
            i += 1;
        }
        false
    }

    /// Adds `item`; tells whether it was absent before.
    pub fn insert(&mut self, item: String) -> (fresh: bool)
        ensures
            final(self)@ == old(self)@.insert(item@),
            fresh == !old(self)@.contains(item@),
            old(self).wf() ==> final(self).wf(),
            fresh ==> final(self).items@ == old(self).items@.push(item),
            !fresh ==> final(self).items@ == old(self).items@,
    {
        if self.contains(item.as_str()) {
            assert(self@ =~= self@.insert(item@));
            false
        } else {
            let ghost before = *self;
            self.items.push(item);
            assert(self@ =~= before@.insert(item@)) by {
                assert forall|s: Seq<char>| self@.contains(s) <==> before@.insert(item@).contains(
                    s,
                ) by {
                    if before@.contains(s) {
                        let i = choose|i: int|
                            0 <= i < before.items@.len() && #[trigger] before.items@[i]@ == s;
                        assert(self.items@[i]@ == s);
                    }
                    if s == item@ {
                        assert(self.items@[before.items@.len() as int]@ == s);
                    }
                }
            }
            true
        }
    }
}

/// A map from strings to values of type `V`.
#[derive(Debug, Clone, PartialEq, Eq)]
pub struct StringMap<V> {
    pub entries: Vec<(String, V)>,
}

impl<V> View for StringMap<V> {
    type V = Map<Seq<char>, V>;

    open spec fn view(&self) -> Map<Seq<char>, V> {
        Map::new(|k: Seq<char>| self.has_key(k), |k: Seq<char>| self.entries@[self.slot(k)].1)
    }
}

impl<V> StringMap<V> {
    /// The key stored at position `i`.
    pub open spec fn key_at(&self, i: int) -> Seq<char> {
        self.entries@[i].0@
    }

    /// Position `i` is the first one that holds the key `k`.
    pub open spec fn first_at(&self, k: Seq<char>, i: int) -> bool {
        &&& 0 <= i < self.entries@.len()
        &&& self.key_at(i) == k
        &&& forall|j: int| 0 <= j < i ==> #[trigger] self.key_at(j) != k
    }

    /// Some position holds the key `k`.
    pub open spec fn has_key(&self, k: Seq<char>) -> bool {
        exists|i: int| 0 <= i < self.entries@.len() && #[trigger] self.key_at(i) == k
    }

    /// The first position that holds the key `k`, where there is one.
    pub open spec fn slot(&self, k: Seq<char>) -> int {
        choose|i: int| self.first_at(k, i)
    }

    /// No key is stored twice.
    pub open spec fn wf(&self) -> bool {
        forall|i: int, j: int|
            0 <= i < j < self.entries@.len() ==> #[trigger] self.key_at(i) != #[trigger] self.key_at(j)
    }

    /// A key that is stored has a first position, and only one.
    pub proof fn lemma_slot(&self, k: Seq<char>)
        requires
            self.has_key(k),
        ensures
            self.first_at(k, self.slot(k)),
            forall|i: int| self.first_at(k, i) ==> i == self.slot(k),
    {
        let w = choose|i: int| 0 <= i < self.entries@.len() && #[trigger] self.key_at(i) == k;
        self.lemma_first_before(k, w);
        assert forall|i: int| self.first_at(k, i) implies i == self.slot(k) by {
            let s = self.slot(k);
            if i < s {
                assert(self.key_at(i) != k);
            } else if s < i {
                assert(self.key_at(s) != k);
            }
        }
    }

    /// If position `w` holds `k`, a first position at or before `w` holds it.
    proof fn lemma_first_before(&self, k: Seq<char>, w: int)
        requires
            0 <= w < self.entries@.len(),
            self.key_at(w) == k,
        ensures
            exists|i: int| self.first_at(k, i),
        decreases w,
    {
        if exists|j: int| 0 <= j < w && #[trigger] self.key_at(j) == k {
            let j = choose|j: int| 0 <= j < w && #[trigger] self.key_at(j) == k;
            self.lemma_first_before(k, j);
        } else {
            assert(self.first_at(k, w));
        }
    }

    /// The empty map.
    pub fn new() -> (map: Self)
        ensures
            map@ == Map::<Seq<char>, V>::empty(),
            map.wf(),
            map.entries@.len() == 0,
    {
        let map = StringMap { entries: Vec::new() };
        assert(map@ =~= Map::<Seq<char>, V>::empty());
        map
    }

    /// The first position that holds `key`, if any.
    pub fn position(&self, key: &str) -> (at: Option<usize>)
        ensures
            match at {
                Some(i) => self.has_key(key@) && i == self.slot(key@) && self.first_at(key@, i as int),
                None => !self.has_key(key@),
            },
    {
        let mut i: usize = 0;
        while i < self.entries.len()
            invariant
                i <= self.entries@.len(),
                forall|j: int| 0 <= j < i ==> #[trigger] self.key_at(j) != key@,
            decreases self.entries@.len() - i,
        {
            if same_text(self.entries[i].0.as_str(), key) {
                proof {
                    assert(self.key_at(i as int) == key@);
                    self.lemma_slot(key@);
                }
                return Some(i);
            }
            i += 1;
        }
        None
    }

    /// The value stored under `key`, if any.
    pub fn get(&self, key: &str) -> (value: Option<&V>)
        ensures
            match value {
                Some(v) => self@.contains_key(key@) && *v == self@[key@],
                None => !self@.contains_key(key@),
            },
    {
        match self.position(key) {
            Some(i) => Some(&self.entries[i].1),
            None => None,
        }
    }

    /// Stores `value` under `key`, in place of an earlier value if there is
    /// one.
    pub fn insert(&mut self, key: String, value: V)
        ensures
            final(self)@ == old(self)@.insert(key@, value),
            old(self).wf() ==> final(self).wf(),
            final(self).entries@ == (if old(self).has_key(key@) {
                old(self).entries@.update(old(self).slot(key@), (key, value))
            } else {
                old(self).entries@.push((key, value))
            }),
    {
        let ghost before = *self;
        let ghost k0 = key@;
        match self.position(key.as_str()) {
            Some(i) => {
                self.entries.set(i, (key, value));
                proof {
                    assert forall|j: int| 0 <= j < self.entries@.len() implies #[trigger] self.key_at(
                        j,
                    ) == before.key_at(j) by {}
                    self.lemma_same_keys(&before);
                    assert forall|k: Seq<char>| #[trigger] self.has_key(k) implies self.entries@[self.slot(k)].1
                        == before@.insert(k0, value)[k] by {
                        self.lemma_slot(k);
                        before.lemma_slot(k);
                    }
                    assert(self@ =~= before@.insert(k0, value));
                }
            },
            None => {
                self.entries.push((key, value));
                proof {
                    let n = before.entries@.len() as int;
                    assert forall|j: int| 0 <= j < n implies #[trigger] self.key_at(j) == before.key_at(
                        j,
                    ) by {}
                    assert(self.key_at(n) == k0);
                    assert forall|k: Seq<char>| self.has_key(k) <==> (before.has_key(k) || k == k0) by {
                        if self.has_key(k) {
                            let w = choose|w: int|
                                0 <= w < self.entries@.len() && #[trigger] self.key_at(w) == k;
                            if w < n {
                                assert(before.key_at(w) == k);
                            }
                        }
                        if before.has_key(k) {
                            let w = choose|w: int|
                                0 <= w < before.entries@.len() && #[trigger] before.key_at(w) == k;
                            assert(self.key_at(w) == k);
                        }
                    }
                    assert forall|k: Seq<char>| #[trigger] self.has_key(k) implies self.entries@[self.slot(k)].1
                        == before@.insert(k0, value)[k] by {
                        self.lemma_slot(k);
                        if k == k0 {
                            assert(self.first_at(k, n)) by {
                                assert forall|j: int| 0 <= j < n implies #[trigger] self.key_at(j)
                                    != k by {
                                    assert(before.key_at(j) != k);
                                }
                            }
                        } else {
                            before.lemma_slot(k);
                            let s = before.slot(k);
                            assert(self.first_at(k, s)) by {
                                assert forall|j: int| 0 <= j < s implies #[trigger] self.key_at(j)
                                    != k by {
                                    assert(before.key_at(j) != k);
                                }
                            }
                        }
                    }
                    assert(self@ =~= before@.insert(k0, value));
                    if before.wf() {
                        assert forall|a: int, b: int|
                            0 <= a < b < self.entries@.len() implies #[trigger] self.key_at(a)
                            != #[trigger] self.key_at(b) by {
                            if b < n {
                                assert(before.key_at(a) != before.key_at(b));
                            } else {
                                assert(before.key_at(a) != k0);
                            }
                        }
                    }
                }
            },
        }
    }

    /// Two maps with the same keys at the same positions store the same keys
    /// and find each at the same position.
    pub proof fn lemma_same_keys<W>(&self, other: &StringMap<W>)
        requires
            self.entries@.len() == other.entries@.len(),
            forall|j: int| 0 <= j < self.entries@.len() ==> #[trigger] self.key_at(j) == other.key_at(j),
        ensures
            forall|k: Seq<char>| #[trigger] self.has_key(k) <==> other.has_key(k),
            forall|k: Seq<char>| self.has_key(k) ==> #[trigger] self.slot(k) == other.slot(k),
            other.wf() ==> self.wf(),
    {
        assert forall|k: Seq<char>| #[trigger] self.has_key(k) <==> other.has_key(k) by {
            if self.has_key(k) {
                let w = choose|w: int| 0 <= w < self.entries@.len() && #[trigger] self.key_at(w) == k;
                assert(other.key_at(w) == k);
            }
            if other.has_key(k) {
                let w = choose|w: int|
                    0 <= w < other.entries@.len() && #[trigger] other.key_at(w) == k;
                assert(self.key_at(w) == k);
            }
        }
        assert forall|k: Seq<char>| self.has_key(k) implies #[trigger] self.slot(k) == other.slot(
            k,
        ) by {
            self.lemma_slot(k);
            other.lemma_slot(k);
            let s = self.slot(k);
            assert(other.first_at(k, s)) by {
                assert(other.key_at(s) == k);
                assert forall|j: int| 0 <= j < s implies #[trigger] other.key_at(j) != k by {
                    assert(self.key_at(j) != k);
                }
            }
        }
        if other.wf() {
            assert forall|a: int, b: int|
                0 <= a < b < self.entries@.len() implies #[trigger] self.key_at(a)
                != #[trigger] self.key_at(b) by {
                assert(other.key_at(a) != other.key_at(b));
            }
        }
    }

    /// Whether a value is stored under `key`.
    pub fn contains_key(&self, key: &str) -> (found: bool)
        ensures
            found == self@.contains_key(key@),
    {
        self.position(key).is_some()
    }
}

} // verus!
