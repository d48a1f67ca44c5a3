//! Insertion-ordered maps and sets whose keys are compared by their model.
//!
//! Both containers keep their entries in a vector in which no key occurs twice.
//! Their views are `Map` and `Set` over the deep views of what they hold, so
//! contracts elsewhere can speak of schedules as plain mathematical maps.

use crate::item::Item;
use vstd::prelude::*;

verus! {

/// A finite map from keys to values that remembers the order of insertion.
#[derive(Debug)]
pub struct KeyedMap<K: Item, V: Item> {
    entries: Vec<(K, V)>,
}

impl<K: Item, V: Item> View for KeyedMap<K, V> {
    type V = Map<K::V, V::V>;

    closed spec fn view(&self) -> Map<K::V, V::V> {
        Map::new(
            |k: K::V| self.keys().contains(k),
            |k: K::V| self.values()[self.keys().index_of(k)],
        )
    }
}

impl<K: Item, V: Item> DeepView for KeyedMap<K, V> {
    type V = Map<K::V, V::V>;

    open spec fn deep_view(&self) -> Map<K::V, V::V> {
        self@
    }
}

impl<K: Item, V: Item> KeyedMap<K, V> {
    /// The models of the keys, in the order in which they were first inserted.
    pub closed spec fn keys(&self) -> Seq<K::V> {
        Seq::new(self.entries@.len(), |i: int| self.entries@[i].0.deep_view())
    }

    /// The models of the values, each at the position of its key.
    pub closed spec fn values(&self) -> Seq<V::V> {
        Seq::new(self.entries@.len(), |i: int| self.entries@[i].1.deep_view())
    }

    /// The values themselves, each at the position of its key.
    pub closed spec fn value_seq(&self) -> Seq<V> {
        Seq::new(self.entries@.len(), |i: int| self.entries@[i].1)
    }

    /// No key occurs twice.
    #[verifier::type_invariant]
    pub closed spec fn wf(&self) -> bool {
        self.keys().no_duplicates()
    }

    /// The models of the values are the models of the values themselves.
    pub proof fn lemma_value_seq(&self)
        ensures
            self.value_seq().len() == self.keys().len(),
            self.values().len() == self.keys().len(),
            forall|i: int|
                0 <= i < self.keys().len() ==> #[trigger] self.values()[i]
                    == self.value_seq()[i].deep_view(),
    {
    }

    /// How the ordered entries and the map view determine each other.
    pub proof fn lemma_entries(&self)
        requires
            self.wf(),
        ensures
            self.keys().len() == self.values().len(),
            self.keys().no_duplicates(),
            self@.dom().finite(),
            self@.len() == self.keys().len(),
            forall|k: K::V| self@.contains_key(k) <==> self.keys().contains(k),
            forall|i: int|
                0 <= i < self.keys().len() ==> self@.contains_key(#[trigger] self.keys()[i])
                    && self@[self.keys()[i]] == self.values()[i],
    {
        let keys = self.keys();
        assert forall|i: int| 0 <= i < keys.len() implies self@.contains_key(#[trigger] keys[i])
            && self@[keys[i]] == self.values()[i] by {
            assert(keys.contains(keys[i]));
            let j = keys.index_of(keys[i]);
            assert(0 <= j < keys.len() && keys[j] == keys[i]);
        }
        assert(self@.dom() =~= keys.to_set());
        keys.unique_seq_to_set();
        vstd::seq_lib::seq_to_set_is_finite(keys);
    }

    /// An empty map.
    pub fn new() -> (m: Self)
        ensures
            m@ == Map::<K::V, V::V>::empty(),
            m.keys() == Seq::<K::V>::empty(),
            m.values() == Seq::<V::V>::empty(),
    {
        let m = KeyedMap { entries: Vec::new() };
        assert(m.keys() =~= Seq::<K::V>::empty());
        assert(m.values() =~= Seq::<V::V>::empty());
        assert(m@ =~= Map::<K::V, V::V>::empty());
        m
    }

    /// The number of entries.
    pub fn len(&self) -> (n: usize)
        ensures
            n == self@.len(),
            n == self.keys().len(),
            n == self.values().len(),
    {
        proof {
            use_type_invariant(self);
            self.lemma_entries();
        }
        self.entries.len()
    }

    /// Whether the map holds no entry.
    pub fn is_empty(&self) -> (b: bool)
        ensures
            b == (self@.len() == 0),
            b == (self@ == Map::<K::V, V::V>::empty()),
    {
        proof {
            use_type_invariant(self);
            self.lemma_entries();
            if self.entries@.len() == 0 {
                assert(self@ =~= Map::<K::V, V::V>::empty());
            }
        }
        self.entries.len() == 0
    }

    /// The key at a position of the insertion order.
    pub fn key_at(&self, i: usize) -> (k: &K)
        requires
            i < self.keys().len(),
        ensures
            k.deep_view() == self.keys()[i as int],
            self@.contains_key(k.deep_view()),
            self@[k.deep_view()] == self.values()[i as int],
    {
        proof {
            use_type_invariant(self);
            self.lemma_entries();
        }
        &self.entries[i].0
    }

    /// The value at a position of the insertion order.
    pub fn value_at(&self, i: usize) -> (v: &V)
        requires
            i < self.keys().len(),
        ensures
            *v == self.value_seq()[i as int],
            v.deep_view() == self.values()[i as int],
            self@.contains_key(self.keys()[i as int]),
            self@[self.keys()[i as int]] == v.deep_view(),
    {
        proof {
            use_type_invariant(self);
            self.lemma_entries();
        }
        &self.entries[i].1
    }

    /// The position of a key in the insertion order, if the map holds it.
    pub fn position(&self, key: &K) -> (p: Option<usize>)
        ensures
            match p {
                Some(i) => i < self.keys().len() && self.keys()[i as int] == key.deep_view()
                    && self@.contains_key(key.deep_view()),
                None => !self@.contains_key(key.deep_view()),
            },
    {
        proof {
            use_type_invariant(self);
            self.lemma_entries();
        }
        let mut i: usize = 0;
        while i < self.entries.len()
            invariant
                i <= self.entries@.len(),
                self.keys().len() == self.entries@.len(),
                forall|j: int| 0 <= j < i ==> self.keys()[j] != key.deep_view(),
            decreases self.entries@.len() - i,
        {
            if self.entries[i].0.same(key) {
                assert(self.keys()[i as int] == key.deep_view());
                return Some(i);
            }
            i += 1;
        }
        None
    }

    /// Whether the map holds the key.
    pub fn contains_key(&self, key: &K) -> (b: bool)
        ensures
            b == self@.contains_key(key.deep_view()),
    {
        self.position(key).is_some()
    }

    /// The value filed under a key.
    pub fn get(&self, key: &K) -> (r: Option<&V>)
        ensures
            match r {
                Some(v) => self@.contains_key(key.deep_view()) && v.deep_view()
                    == self@[key.deep_view()],
                None => !self@.contains_key(key.deep_view()),
            },
    {
        proof {
            use_type_invariant(self);
            self.lemma_entries();
        }
        match self.position(key) {
            Some(i) => Some(&self.entries[i].1),
            None => None,
        }
    }

    /// Files a value under a key and hands back the value it replaces.
    ///
    /// A key that the map already holds keeps its place in the order; a new key
    /// goes to the end.
    pub fn insert(&mut self, key: K, value: V) -> (prev: Option<V>)
        ensures
            final(self)@ == old(self)@.insert(key.deep_view(), value.deep_view()),
            match prev {
                Some(p) => old(self)@.contains_key(key.deep_view()) && p.deep_view() == old(
                    self,
                )@[key.deep_view()],
                None => !old(self)@.contains_key(key.deep_view()),
            },
            old(self)@.contains_key(key.deep_view()) ==> final(self).keys() == old(self).keys()
                && final(self).values() == old(self).values().update(
                old(self).keys().index_of(key.deep_view()),
                value.deep_view(),
            ),
            !old(self)@.contains_key(key.deep_view()) ==> final(self).keys() == old(
                self,
            ).keys().push(key.deep_view()) && final(self).values() == old(self).values().push(
                value.deep_view(),
            ),
    {
        proof {
            use_type_invariant(&*self);
            self.lemma_entries();
        }
        let ghost k = key.deep_view();
        let ghost v = value.deep_view();
        let ghost old_keys = self.keys();
        let ghost old_values = self.values();
        let ghost old_view = self@;
        match self.position(&key) {
            Some(i) => {
                let mut entries: Vec<(K, V)> = Vec::new();
                std::mem::swap(&mut entries, &mut self.entries);
                let gone = entries.remove(i);
                entries.insert(i, (key, value));
                proof {
                    let next = KeyedMap::<K, V> { entries };
                    assert(next.keys() =~= old_keys);
                }
                self.entries = entries;
                proof {
                    assert(self.keys() =~= old_keys);
                    assert(self.values() =~= old_values.update(i as int, v));
                    assert(old_keys.index_of(k) == i as int);
                    self.lemma_entries();
                    assert(self@ =~= old_view.insert(k, v)) by {
                        assert forall|q: K::V| self@.contains_key(q) implies #[trigger] self@[q]
                            == old_view.insert(k, v)[q] by {
                            let j = old_keys.index_of(q);
                            assert(0 <= j < old_keys.len() && old_keys[j] == q);
                        }
                    }
                }
                Some(gone.1)
            },
            None => {
                let mut entries: Vec<(K, V)> = Vec::new();
                std::mem::swap(&mut entries, &mut self.entries);
                entries.push((key, value));
                proof {
                    let next = KeyedMap::<K, V> { entries };
                    assert(next.keys() =~= old_keys.push(k));
                }
                self.entries = entries;
                proof {
                    assert(self.keys() =~= old_keys.push(k));
                    assert(self.values() =~= old_values.push(v));
                    assert(self.keys().no_duplicates());
                    self.lemma_entries();
                    assert(self@ =~= old_view.insert(k, v)) by {
                        assert forall|q: K::V| self@.contains_key(q) implies #[trigger] self@[q]
                            == old_view.insert(k, v)[q] by {
                            let j = self.keys().index_of(q);
                            assert(0 <= j < self.keys().len() && self.keys()[j] == q);
                            if j < old_keys.len() {
                                assert(old_keys[j] == q);
                            }
                        }
                        assert forall|q: K::V| old_view.insert(k, v).contains_key(q) implies
                            self@.contains_key(q) by {
                            if q == k {
                                assert(self.keys()[old_keys.len() as int] == k);
                            } else {
                                let j = old_keys.index_of(q);
                                assert(0 <= j < old_keys.len() && old_keys[j] == q);
                                assert(self.keys()[j] == q);
                            }
                        }
                    }
                }
                None
            },
        }
    }

    /// Takes a key out of the map and hands back its value.
    ///
    /// The other entries keep their order.
    pub fn remove(&mut self, key: &K) -> (gone: Option<V>)
        ensures
            final(self)@ == old(self)@.remove(key.deep_view()),
            match gone {
                Some(g) => old(self)@.contains_key(key.deep_view()) && g.deep_view() == old(
                    self,
                )@[key.deep_view()],
                None => !old(self)@.contains_key(key.deep_view()),
            },
            old(self)@.contains_key(key.deep_view()) ==> final(self).keys() == old(
                self,
            ).keys().remove(old(self).keys().index_of(key.deep_view())) && final(self).values()
                == old(self).values().remove(old(self).keys().index_of(key.deep_view())),
            !old(self)@.contains_key(key.deep_view()) ==> final(self).keys() == old(self).keys()
                && final(self).values() == old(self).values(),
    {
        proof {
            use_type_invariant(&*self);
            self.lemma_entries();
        }
        let ghost k = key.deep_view();
        let ghost old_keys = self.keys();
        let ghost old_values = self.values();
        let ghost old_view = self@;
        match self.position(key) {
            Some(i) => {
                let mut entries: Vec<(K, V)> = Vec::new();
                std::mem::swap(&mut entries, &mut self.entries);
                let gone = entries.remove(i);
                proof {
                    let next = KeyedMap::<K, V> { entries };
                    assert(next.keys() =~= old_keys.remove(i as int));
                    assert forall|a: int, b: int|
                        0 <= a < next.keys().len() && 0 <= b < next.keys().len() && a
                            != b implies next.keys()[a] != next.keys()[b] by {
                        let a0 = if a < i { a } else { a + 1 };
                        let b0 = if b < i { b } else { b + 1 };
                        assert(next.keys()[a] == old_keys[a0]);
                        assert(next.keys()[b] == old_keys[b0]);
                    }
                }
                self.entries = entries;
                proof {
                    assert(old_keys.index_of(k) == i as int);
                    assert(self.keys() =~= old_keys.remove(i as int));
                    assert(self.values() =~= old_values.remove(i as int));
                    assert(self.keys().no_duplicates()) by {
                        assert forall|a: int, b: int|
                            0 <= a < self.keys().len() && 0 <= b < self.keys().len() && a
                                != b implies self.keys()[a] != self.keys()[b] by {
                            let a0 = if a < i { a } else { a + 1 };
                            let b0 = if b < i { b } else { b + 1 };
                            assert(self.keys()[a] == old_keys[a0]);
                            assert(self.keys()[b] == old_keys[b0]);
                        }
                    }
                    self.lemma_entries();
                    assert(self@ =~= old_view.remove(k)) by {
                        assert forall|q: K::V| self@.contains_key(q) implies old_view.remove(
                            k,
                        ).contains_key(q) && #[trigger] self@[q] == old_view.remove(k)[q] by {
                            let j = self.keys().index_of(q);
                            assert(0 <= j < self.keys().len() && self.keys()[j] == q);
                            let j0 = if j < i { j } else { j + 1 };
                            assert(old_keys[j0] == q);
                            assert(self.values()[j] == old_values[j0]);
                        }
                        assert forall|q: K::V| old_view.remove(k).contains_key(q) implies
                            self@.contains_key(q) by {
                            let j0 = old_keys.index_of(q);
                            assert(0 <= j0 < old_keys.len() && old_keys[j0] == q);
                            let j = if j0 < i { j0 } else { j0 - 1 };
                            assert(self.keys()[j] == q);
                        }
                    }
                }
                Some(gone.1)
            },
            None => {
                proof {
                    assert(self@ =~= old_view.remove(k));
                }
                None
            },
        }
    }

    /// Takes every entry out of the map.
    pub fn clear(&mut self)
        ensures
            final(self)@ == Map::<K::V, V::V>::empty(),
            final(self).keys() == Seq::<K::V>::empty(),
            final(self).values() == Seq::<V::V>::empty(),
    {
        self.entries = Vec::new();
        proof {
            assert(self.keys() =~= Seq::<K::V>::empty());
            assert(self.values() =~= Seq::<V::V>::empty());
            assert(self@ =~= Map::<K::V, V::V>::empty());
        }
    }

    /// Puts a new value in the place of the one at a position and hands back
    /// the old one. The key and the order stay as they are.
    pub fn replace_at(&mut self, i: usize, value: V) -> (prev: V)
        requires
            i < old(self).keys().len(),
        ensures
            prev.deep_view() == old(self).values()[i as int],
            final(self).keys() == old(self).keys(),
            final(self).values() == old(self).values().update(i as int, value.deep_view()),
            final(self)@ == old(self)@.insert(old(self).keys()[i as int], value.deep_view()),
    {
        proof {
            use_type_invariant(&*self);
            self.lemma_entries();
        }
        let ghost v = value.deep_view();
        let ghost old_keys = self.keys();
        let ghost old_values = self.values();
        let ghost old_view = self@;
        let mut entries: Vec<(K, V)> = Vec::new();
        std::mem::swap(&mut entries, &mut self.entries);
        let gone = entries.remove(i);
        entries.insert(i, (gone.0, value));
        proof {
            let next = KeyedMap::<K, V> { entries };
            assert(next.keys() =~= old_keys);
        }
        self.entries = entries;
        proof {
            assert(self.keys() =~= old_keys);
            assert(self.values() =~= old_values.update(i as int, v));
            self.lemma_entries();
            assert(self@ =~= old_view.insert(old_keys[i as int], v)) by {
                assert forall|q: K::V| self@.contains_key(q) implies #[trigger] self@[q]
                    == old_view.insert(old_keys[i as int], v)[q] by {
                    let j = old_keys.index_of(q);
                    assert(0 <= j < old_keys.len() && old_keys[j] == q);
                }
            }
        }
        gone.1
    }
}

impl<K: Item, V: Item> Item for KeyedMap<K, V> {
    fn same(&self, other: &Self) -> (b: bool) {
        proof {
            use_type_invariant(self);
            use_type_invariant(other);
            self.lemma_entries();
            other.lemma_entries();
        }
        if self.len() != other.len() {
            return false;
        }
        let mut i: usize = 0;
        while i < self.len()
            invariant
                i <= self.keys().len(),
                self.wf(),
                other.wf(),
                forall|j: int|
                    0 <= j < i ==> other@.contains_key(#[trigger] self.keys()[j])
                        && other@[self.keys()[j]] == self.values()[j],
            decreases self.keys().len() - i,
        {
            match other.get(self.key_at(i)) {
                Some(v) => {
                    if !v.same(self.value_at(i)) {
                        return false;
                    }
                },
                None => {
                    return false;
                },
            }
            i += 1;
        }
        proof {
            assert(self@.dom().subset_of(other@.dom())) by {
                assert forall|q: K::V| self@.dom().contains(q) implies other@.dom().contains(q) by {
                    let j = self.keys().index_of(q);
                    assert(0 <= j < self.keys().len() && self.keys()[j] == q);
                }
            }
            vstd::set_lib::lemma_subset_equality(self@.dom(), other@.dom());
            assert(self@ =~= other@) by {
                assert forall|q: K::V| self@.contains_key(q) implies #[trigger] self@[q]
                    == other@[q] by {
                    let j = self.keys().index_of(q);
                    assert(0 <= j < self.keys().len() && self.keys()[j] == q);
                }
            }
        }
        true
    }

    fn copy(&self) -> (c: Self) {
        proof {
            use_type_invariant(self);
            self.lemma_entries();
        }
        let mut entries: Vec<(K, V)> = Vec::new();
        let mut i: usize = 0;
        while i < self.entries.len()
            invariant
                i <= self.entries@.len(),
                entries@.len() == i,
                forall|j: int|
                    0 <= j < i ==> (#[trigger] entries@[j]).0.deep_view()
                        == self.entries@[j].0.deep_view() && entries@[j].1.deep_view()
                        == self.entries@[j].1.deep_view(),
            decreases self.entries@.len() - i,
        {
            entries.push((self.entries[i].0.copy(), self.entries[i].1.copy()));
            i += 1;
        }
        proof {
            let next = KeyedMap::<K, V> { entries };
            assert(next.keys() =~= self.keys());
            assert(next.values() =~= self.values());
        }
        let c = KeyedMap { entries };
        proof {
            assert(c.keys() =~= self.keys());
            assert(c.values() =~= self.values());
            assert(c@ =~= self@);
        }
        c
    }
}

impl<K: Item, V: Item> Clone for KeyedMap<K, V> {
    fn clone(&self) -> (c: Self)
        ensures
            c@ == self@,
    {
        self.copy()
    }
}

impl<K: Item, V: Item> PartialEq for KeyedMap<K, V> {
    fn eq(&self, other: &Self) -> (b: bool) {
        self.same(other)
    }
}

impl<K: Item, V: Item> vstd::std_specs::cmp::PartialEqSpecImpl for KeyedMap<K, V> {
    open spec fn obeys_eq_spec() -> bool {
        true
    }

    open spec fn eq_spec(&self, other: &Self) -> bool {
        self@ == other@
    }
}

/// A finite set that remembers the order of insertion.
#[derive(Debug)]
pub struct KeyedSet<K: Item> {
    items: Vec<K>,
}

impl<K: Item> View for KeyedSet<K> {
    type V = Set<K::V>;

    closed spec fn view(&self) -> Set<K::V> {
        self.members().to_set()
    }
}

impl<K: Item> DeepView for KeyedSet<K> {
    type V = Set<K::V>;

    open spec fn deep_view(&self) -> Set<K::V> {
        self@
    }
}

impl<K: Item> KeyedSet<K> {
    /// The models of the members, in the order in which they were inserted.
    pub closed spec fn members(&self) -> Seq<K::V> {
        Seq::new(self.items@.len(), |i: int| self.items@[i].deep_view())
    }

    /// No member occurs twice.
    #[verifier::type_invariant]
    pub closed spec fn wf(&self) -> bool {
        self.members().no_duplicates()
    }

    /// How the ordered members and the set view determine each other.
    pub proof fn lemma_members(&self)
        requires
            self.wf(),
        ensures
            self.members().no_duplicates(),
            self@.finite(),
            self@.len() == self.members().len(),
            forall|k: K::V| self@.contains(k) <==> self.members().contains(k),
    {
        self.members().unique_seq_to_set();
        vstd::seq_lib::seq_to_set_is_finite(self.members());
    }

    /// An empty set.
    pub fn new() -> (s: Self)
        ensures
            s@ == Set::<K::V>::empty(),
            s.members() == Seq::<K::V>::empty(),
    {
        let s = KeyedSet { items: Vec::new() };
        assert(s.members() =~= Seq::<K::V>::empty());
        assert(s@ =~= Set::<K::V>::empty());
        s
    }

    /// The number of members.
    pub fn len(&self) -> (n: usize)
        ensures
            n == self@.len(),
            n == self.members().len(),
    {
        proof {
            use_type_invariant(self);
            self.lemma_members();
        }
        self.items.len()
    }

    /// Whether the set has no member.
    pub fn is_empty(&self) -> (b: bool)
        ensures
            b == (self@ == Set::<K::V>::empty()),
    {
        proof {
            use_type_invariant(self);
            self.lemma_members();
            if self.items@.len() == 0 {
                assert(self@ =~= Set::<K::V>::empty());
            }
        }
        self.items.len() == 0
    }

    /// The member at a position of the insertion order.
    pub fn member_at(&self, i: usize) -> (k: &K)
        requires
            i < self.members().len(),
        ensures
            k.deep_view() == self.members()[i as int],
            self@.contains(k.deep_view()),
    {
        proof {
            use_type_invariant(self);
            self.lemma_members();
            assert(self.members()[i as int] == self.items@[i as int].deep_view());
        }
        &self.items[i]
    }

    /// The position of a member in the insertion order, if the set holds it.
    pub fn position(&self, key: &K) -> (p: Option<usize>)
        ensures
            match p {
                Some(i) => i < self.members().len() && self.members()[i as int]
                    == key.deep_view() && self@.contains(key.deep_view()),
                None => !self@.contains(key.deep_view()),
            },
    {
        proof {
            use_type_invariant(self);
            self.lemma_members();
        }
        let mut i: usize = 0;
        while i < self.items.len()
            invariant
                i <= self.items@.len(),
                self.members().len() == self.items@.len(),
                forall|j: int| 0 <= j < i ==> self.members()[j] != key.deep_view(),
            decreases self.items@.len() - i,
        {
            if self.items[i].same(key) {
                assert(self.members()[i as int] == key.deep_view());
                return Some(i);
            }
            i += 1;
        }
        None
    }

    /// Whether the set holds the key.
    pub fn contains(&self, key: &K) -> (b: bool)
        ensures
            b == self@.contains(key.deep_view()),
    {
        self.position(key).is_some()
    }

    /// Adds a member; says whether it was new. A new member goes to the end.
    pub fn insert(&mut self, key: K) -> (fresh: bool)
        ensures
            final(self)@ == old(self)@.insert(key.deep_view()),
            fresh == !old(self)@.contains(key.deep_view()),
            fresh ==> final(self).members() == old(self).members().push(key.deep_view()),
            !fresh ==> final(self).members() == old(self).members(),
    {
        proof {
            use_type_invariant(&*self);
            self.lemma_members();
        }
        let ghost k = key.deep_view();
        let ghost old_members = self.members();
        let ghost old_view = self@;
        if self.contains(&key) {
            assert(self@ =~= old_view.insert(k));
            false
        } else {
            let mut items: Vec<K> = Vec::new();
            std::mem::swap(&mut items, &mut self.items);
            items.push(key);
            proof {
                let next = KeyedSet::<K> { items };
                assert(next.members() =~= old_members.push(k));
            }
            self.items = items;
            proof {
                assert(self.members() =~= old_members.push(k));
                assert(self@ =~= old_view.insert(k)) by {
                    assert forall|q: K::V| old_view.insert(k).contains(q) implies self@.contains(
                        q,
                    ) by {
                        if q == k {
                            assert(self.members()[old_members.len() as int] == k);
                        } else {
                            let j = old_members.index_of(q);
                            assert(0 <= j < old_members.len() && old_members[j] == q);
                            assert(self.members()[j] == q);
                        }
                    }
                    assert forall|q: K::V| self@.contains(q) implies old_view.insert(k).contains(
                        q,
                    ) by {
                        let j = self.members().index_of(q);
                        assert(0 <= j < self.members().len() && self.members()[j] == q);
                        if j < old_members.len() {
                            assert(old_members[j] == q);
                        }
                    }
                }
            }
            true
        }
    }

    /// Takes a member out; says whether the set held it. The others keep their order.
    pub fn remove(&mut self, key: &K) -> (held: bool)
        ensures
            final(self)@ == old(self)@.remove(key.deep_view()),
            held == old(self)@.contains(key.deep_view()),
            held ==> final(self).members() == old(self).members().remove(
                old(self).members().index_of(key.deep_view()),
            ),
            !held ==> final(self).members() == old(self).members(),
    {
        proof {
            use_type_invariant(&*self);
            self.lemma_members();
        }
        let ghost k = key.deep_view();
        let ghost old_members = self.members();
        let ghost old_view = self@;
        match self.position(key) {
            Some(i) => {
                let mut items: Vec<K> = Vec::new();
                std::mem::swap(&mut items, &mut self.items);
                let _ = items.remove(i);
                proof {
                    let next = KeyedSet::<K> { items };
                    assert(next.members() =~= old_members.remove(i as int));
                    assert forall|a: int, b: int|
                        0 <= a < next.members().len() && 0 <= b < next.members().len() && a
                            != b implies next.members()[a] != next.members()[b] by {
                        let a0 = if a < i { a } else { a + 1 };
                        let b0 = if b < i { b } else { b + 1 };
                        assert(next.members()[a] == old_members[a0]);
                        assert(next.members()[b] == old_members[b0]);
                    }
                }
                self.items = items;
                proof {
                    assert(old_members.index_of(k) == i as int);
                    assert(self.members() =~= old_members.remove(i as int));
                    assert(self@ =~= old_view.remove(k)) by {
                        assert forall|q: K::V| self@.contains(q) implies old_view.remove(
                            k,
                        ).contains(q) by {
                            let j = self.members().index_of(q);
                            assert(0 <= j < self.members().len() && self.members()[j] == q);
                            let j0 = if j < i { j } else { j + 1 };
                            assert(old_members[j0] == q);
                        }
                        assert forall|q: K::V|
                            old_view.remove(k).contains(q) implies self@.contains(q) by {
                            let j0 = old_members.index_of(q);
                            assert(0 <= j0 < old_members.len() && old_members[j0] == q);
                            let j = if j0 < i { j0 } else { j0 - 1 };
                            assert(self.members()[j] == q);
                        }
                    }
                }
                true
            },
            None => {
                assert(self@ =~= old_view.remove(k));
                false
            },
        }
    }
}

impl<K: Item> Item for KeyedSet<K> {
    fn same(&self, other: &Self) -> (b: bool) {
        proof {
            use_type_invariant(self);
            use_type_invariant(other);
            self.lemma_members();
            other.lemma_members();
        }
        if self.len() != other.len() {
            return false;
        }
        let mut i: usize = 0;
        while i < self.len()
            invariant
                i <= self.members().len(),
                self.wf(),
                other.wf(),
                forall|j: int| 0 <= j < i ==> other@.contains(#[trigger] self.members()[j]),
            decreases self.members().len() - i,
        {
            if !other.contains(self.member_at(i)) {
                return false;
            }
            i += 1;
        }
        proof {
            assert(self@.subset_of(other@)) by {
                assert forall|q: K::V| self@.contains(q) implies other@.contains(q) by {
                    let j = self.members().index_of(q);
                    assert(0 <= j < self.members().len() && self.members()[j] == q);
                }
            }
            vstd::set_lib::lemma_subset_equality(self@, other@);
        }
        true
    }

    fn copy(&self) -> (c: Self) {
        proof {
            use_type_invariant(self);
        }
        let mut items: Vec<K> = Vec::new();
        let mut i: usize = 0;
        while i < self.items.len()
            invariant
                i <= self.items@.len(),
                items@.len() == i,
                forall|j: int|
                    0 <= j < i ==> (#[trigger] items@[j]).deep_view() == self.items@[j].deep_view(),
            decreases self.items@.len() - i,
        {
            items.push(self.items[i].copy());
            i += 1;
        }
        proof {
            let next = KeyedSet::<K> { items };
            assert(next.members() =~= self.members());
        }
        let c = KeyedSet { items };
        proof {
            assert(c.members() =~= self.members());
        }
        c
    }
}

impl<K: Item> Clone for KeyedSet<K> {
    fn clone(&self) -> (c: Self)
        ensures
            c@ == self@,
    {
        self.copy()
    }
}

impl<K: Item> PartialEq for KeyedSet<K> {
    fn eq(&self, other: &Self) -> (b: bool) {
        self.same(other)
    }
}

impl<K: Item> vstd::std_specs::cmp::PartialEqSpecImpl for KeyedSet<K> {
    open spec fn obeys_eq_spec() -> bool {
        true
    }

    open spec fn eq_spec(&self, other: &Self) -> bool {
        self@ == other@
    }
}

} // verus!
