//! Deltas between two keyed collections: what to add, what to remove, how to
//! apply such a delta and how to fold two of them into one.
//!
//! Everything here is generic in the key and the value. The schedule's stops,
//! shapes, trips and stop times all use it.

use crate::item::Item;
use crate::keyed::{KeyedMap, KeyedSet};
use vstd::prelude::*;

verus! {

/// Whether `x` is among the first `i` elements of `s`.
pub open spec fn among<A>(s: Seq<A>, i: int, x: A) -> bool {
    s.take(i).contains(x)
}

/// One more element of a sequence joins its prefix.
pub proof fn lemma_take_step<A>(s: Seq<A>, i: int)
    requires
        0 <= i < s.len(),
    ensures
        s.take(i + 1) == s.take(i).push(s[i]),
        forall|x: A| #[trigger] among(s, i + 1, x) <==> among(s, i, x) || x == s[i],
{
    let before = s.take(i);
    let after = s.take(i + 1);
    assert(after =~= before.push(s[i]));
    assert forall|x: A| #[trigger] among(s, i + 1, x) <==> among(s, i, x) || x == s[i] by {
        if before.contains(x) {
            let t = before.index_of(x);
            assert(after[t] == x);
        }
        if x == s[i] {
            assert(after[i] == x);
        }
    }
}

/// The whole of a sequence is its longest prefix, and nothing is among the
/// first none.
pub proof fn lemma_take_ends<A>(s: Seq<A>)
    ensures
        forall|x: A| #[trigger] among(s, s.len() as int, x) <==> s.contains(x),
        forall|x: A| !(#[trigger] among(s, 0, x)),
{
    assert(s.take(s.len() as int) =~= s);
}

/// Whether the element at place `i` of `s` is the first that `inside` lacks.
pub open spec fn first_outside<A>(s: Seq<A>, inside: Set<A>, i: int) -> bool {
    &&& 0 <= i < s.len()
    &&& !inside.contains(s[i])
    &&& forall|j: int| 0 <= j < i ==> inside.contains(#[trigger] s[j])
}

/// The first components of a sequence of pairs.
pub open spec fn firsts<A, B>(pairs: Seq<(A, B)>) -> Seq<A> {
    Seq::new(pairs.len(), |i: int| pairs[i].0)
}

/// The entries of `curr` that `prev` lacks or holds with another value.
pub open spec fn added_entries<A, B>(curr: Map<A, B>, prev: Map<A, B>) -> Map<A, B> {
    Map::new(
        |k: A| curr.contains_key(k) && (!prev.contains_key(k) || prev[k] != curr[k]),
        |k: A| curr[k],
    )
}

/// The keys of `prev` that `curr` lacks or holds with another value.
pub open spec fn removed_keys<A, B>(curr: Map<A, B>, prev: Map<A, B>) -> Set<A> {
    Set::new(|k: A| prev.contains_key(k) && (!curr.contains_key(k) || prev[k] != curr[k]))
}

/// `base` after the removals and then the insertions of a delta.
pub open spec fn patched<A, B>(base: Map<A, B>, added: Map<A, B>, removed: Set<A>) -> Map<A, B> {
    base.remove_keys(removed).union_prefer_right(added)
}

/// Computes the delta that leads from `prev` to `curr`: the entries to add and
/// the keys to remove. A key whose value changed is on both sides.
pub fn diff_entries<K: Item, V: Item>(curr: &KeyedMap<K, V>, prev: &KeyedMap<K, V>) -> (delta: (
    KeyedMap<K, V>,
    KeyedSet<K>,
))
    ensures
        delta.0@ == added_entries(curr@, prev@),
        delta.1@ == removed_keys(curr@, prev@),
{
    let mut added: KeyedMap<K, V> = KeyedMap::new();
    let mut removed: KeyedSet<K> = KeyedSet::new();
    proof {
        use_type_invariant(curr);
        use_type_invariant(prev);
        curr.lemma_entries();
        prev.lemma_entries();
        lemma_take_ends(curr.keys());
        lemma_take_ends(prev.keys());
    }
    let n = curr.len();
    let mut i: usize = 0;
    while i < n
        invariant
            i <= n,
            n == curr.keys().len(),
            curr.wf(),
            forall|k: K::V|
                #![trigger added@.contains_key(k)]
                #![trigger among(curr.keys(), i as int, k)]
                added@.contains_key(k) <==> among(curr.keys(), i as int, k) && added_entries(
                    curr@,
                    prev@,
                ).contains_key(k),
            forall|k: K::V| added@.contains_key(k) ==> #[trigger] added@[k] == curr@[k],
            forall|k: K::V|
                #![trigger removed@.contains(k)]
                #![trigger among(curr.keys(), i as int, k)]
                removed@.contains(k) <==> among(curr.keys(), i as int, k) && removed_keys(
                    curr@,
                    prev@,
                ).contains(k),
        decreases n - i,
    {
        let key = curr.key_at(i);
        let value = curr.value_at(i);
        proof {
            lemma_take_step(curr.keys(), i as int);
        }
        match prev.get(key) {
            Some(old_value) => {
                if !old_value.same(value) {
                    removed.insert(key.copy());
                    added.insert(key.copy(), value.copy());
                }
            },
            None => {
                added.insert(key.copy(), value.copy());
            },
        }
        i += 1;
    }
    proof {
        assert(added@ =~= added_entries(curr@, prev@));
    }
    let m = prev.len();
    let mut j: usize = 0;
    while j < m
        invariant
            j <= m,
            m == prev.keys().len(),
            prev.wf(),
            curr.wf(),
            added@ == added_entries(curr@, prev@),
            forall|k: K::V|
                #![trigger removed@.contains(k)]
                #![trigger among(prev.keys(), j as int, k)]
                removed@.contains(k) <==> removed_keys(curr@, prev@).contains(k) && (
                curr@.contains_key(k) || among(prev.keys(), j as int, k)),
        decreases m - j,
    {
        let key = prev.key_at(j);
        proof {
            lemma_take_step(prev.keys(), j as int);
        }
        if !curr.contains_key(key) {
            removed.insert(key.copy());
        }
        j += 1;
    }
    proof {
        assert(removed@ =~= removed_keys(curr@, prev@));
    }
    (added, removed)
}

/// Applies a delta to `base` in place: first every removal, then every
/// insertion, so that a key on both sides ends with its new value.
pub fn apply_entries<K: Item, V: Item>(
    base: &mut KeyedMap<K, V>,
    added: &KeyedMap<K, V>,
    removed: &KeyedSet<K>,
)
    ensures
        final(base)@ == patched(old(base)@, added@, removed@),
{
    let ghost start = base@;
    proof {
        use_type_invariant(added);
        use_type_invariant(removed);
        added.lemma_entries();
        removed.lemma_members();
        lemma_take_ends(added.keys());
        lemma_take_ends(removed.members());
    }
    let n = removed.len();
    let mut i: usize = 0;
    while i < n
        invariant
            i <= n,
            n == removed.members().len(),
            removed.wf(),
            forall|k: K::V|
                #![trigger base@.contains_key(k)]
                #![trigger among(removed.members(), i as int, k)]
                base@.contains_key(k) <==> start.contains_key(k) && !among(
                    removed.members(),
                    i as int,
                    k,
                ),
            forall|k: K::V| base@.contains_key(k) ==> #[trigger] base@[k] == start[k],
        decreases n - i,
    {
        let key = removed.member_at(i);
        proof {
            lemma_take_step(removed.members(), i as int);
        }
        base.remove(key);
        i += 1;
    }
    let ghost mid = base@;
    proof {
        assert(mid =~= start.remove_keys(removed@));
    }
    let m = added.len();
    let mut j: usize = 0;
    while j < m
        invariant
            j <= m,
            m == added.keys().len(),
            added.wf(),
            forall|k: K::V|
                #![trigger base@.contains_key(k)]
                #![trigger among(added.keys(), j as int, k)]
                base@.contains_key(k) <==> mid.contains_key(k) || among(added.keys(), j as int, k),
            forall|k: K::V|
                base@.contains_key(k) ==> #[trigger] base@[k] == (if among(
                    added.keys(),
                    j as int,
                    k,
                ) {
                    added@[k]
                } else {
                    mid[k]
                }),
        decreases m - j,
    {
        let key = added.key_at(j);
        let value = added.value_at(j);
        proof {
            added.lemma_entries();
            lemma_take_step(added.keys(), j as int);
        }
        base.insert(key.copy(), value.copy());
        j += 1;
    }
    proof {
        added.lemma_entries();
        assert(base@ =~= patched(start, added@, removed@));
    }
}

/// Whether a combined delta removes an id, given on which sides of the first
/// and of the second delta the id stands.
///
/// It does when the first delta removes it, or when the second removes it and
/// the id is not one that the first delta merely added and the second takes
/// away again.
pub open spec fn combined_removes(r1: bool, r2: bool, a1: bool, a2: bool) -> bool {
    r1 || (r2 && (!a1 || a2))
}

/// Whether a combined delta adds an id, and from which delta the value comes:
/// `Some(true)` for the second, `Some(false)` for the first.
///
/// The second delta's value wins. The first delta's value stays only while
/// the second does not remove the id.
pub open spec fn combined_adds(r1: bool, r2: bool, a1: bool, a2: bool) -> Option<bool> {
    if a2 {
        Some(true)
    } else if a1 && !r2 {
        Some(false)
    } else {
        None
    }
}

/// Whether the sides on which an id stands cannot come from two deltas that
/// follow one another: the second adds what the first left in place without
/// removing it, or removes again what the first removed and did not put back.
pub open spec fn contradictory(r1: bool, r2: bool, a1: bool, a2: bool) -> bool {
    (a1 && a2 && !r2) || (r1 && r2 && !a1 && !a2)
}

/// Reads the combination table for one id: whether the combined delta removes
/// it, and whether it adds it and from which delta (`false` the first, `true`
/// the second). `None` for the three states that cannot occur.
pub fn get_diff_diff_mask(r1: bool, r2: bool, a1: bool, a2: bool) -> (mask: Option<
    (bool, Option<bool>),
>)
    ensures
        mask is None <==> contradictory(r1, r2, a1, a2),
        mask matches Some(m) ==> m.0 == combined_removes(r1, r2, a1, a2) && m.1 == combined_adds(
            r1,
            r2,
            a1,
            a2,
        ),
{
    match (r1, r2, a1, a2) {
        (true, true, true, true)
        | (false, true, true, true)
        | (true, true, false, true)
        | (true, false, false, true)
        | (false, true, false, true) => Some((true, Some(true))),
        (true, false, true, false) => Some((true, Some(false))),
        (true, true, true, false) | (true, false, false, false) | (false, true, false, false) => {
            Some((true, None))
        },
        (false, false, true, false) => Some((false, Some(false))),
        (false, false, false, true) => Some((false, Some(true))),
        (false, false, false, false) | (false, true, true, false) => Some((false, None)),
        (true, false, true, true) | (true, true, false, false) | (false, false, true, true) => {
            None
        },
    }
}

/// Every id that one of two deltas touches.
pub fn get_all_ids<K: Item, V: Item>(
    added1: &KeyedMap<K, V>,
    added2: &KeyedMap<K, V>,
    removed1: &KeyedSet<K>,
    removed2: &KeyedSet<K>,
) -> (ids: KeyedSet<K>)
    ensures
        ids@ == removed1@ + removed2@ + added1@.dom() + added2@.dom(),
{
    let mut ids: KeyedSet<K> = KeyedSet::new();
    proof {
        use_type_invariant(added1);
        use_type_invariant(added2);
        use_type_invariant(removed1);
        use_type_invariant(removed2);
        added1.lemma_entries();
        added2.lemma_entries();
        removed1.lemma_members();
        removed2.lemma_members();
        lemma_take_ends(added1.keys());
        lemma_take_ends(added2.keys());
        lemma_take_ends(removed1.members());
        lemma_take_ends(removed2.members());
    }
    let mut i: usize = 0;
    while i < removed1.len()
        invariant
            i <= removed1.members().len(),
            removed1.wf(),
            forall|k: K::V|
                #![trigger ids@.contains(k)]
                #![trigger among(removed1.members(), i as int, k)]
                ids@.contains(k) <==> among(removed1.members(), i as int, k),
        decreases removed1.members().len() - i,
    {
        proof {
            lemma_take_step(removed1.members(), i as int);
        }
        ids.insert(removed1.member_at(i).copy());
        i += 1;
    }
    let mut i: usize = 0;
    while i < removed2.len()
        invariant
            i <= removed2.members().len(),
            removed2.wf(),
            forall|k: K::V|
                #![trigger ids@.contains(k)]
                #![trigger among(removed2.members(), i as int, k)]
                ids@.contains(k) <==> removed1@.contains(k) || among(
                    removed2.members(),
                    i as int,
                    k,
                ),
        decreases removed2.members().len() - i,
    {
        proof {
            lemma_take_step(removed2.members(), i as int);
        }
        ids.insert(removed2.member_at(i).copy());
        i += 1;
    }
    let mut i: usize = 0;
    while i < added1.len()
        invariant
            i <= added1.keys().len(),
            added1.wf(),
            forall|k: K::V|
                #![trigger ids@.contains(k)]
                #![trigger among(added1.keys(), i as int, k)]
                ids@.contains(k) <==> removed1@.contains(k) || removed2@.contains(k) || among(
                    added1.keys(),
                    i as int,
                    k,
                ),
        decreases added1.keys().len() - i,
    {
        proof {
            lemma_take_step(added1.keys(), i as int);
        }
        ids.insert(added1.key_at(i).copy());
        i += 1;
    }
    let mut i: usize = 0;
    while i < added2.len()
        invariant
            i <= added2.keys().len(),
            added2.wf(),
            forall|k: K::V|
                #![trigger ids@.contains(k)]
                #![trigger among(added2.keys(), i as int, k)]
                ids@.contains(k) <==> removed1@.contains(k) || removed2@.contains(k)
                    || added1@.contains_key(k) || among(added2.keys(), i as int, k),
        decreases added2.keys().len() - i,
    {
        proof {
            lemma_take_step(added2.keys(), i as int);
        }
        ids.insert(added2.key_at(i).copy());
        i += 1;
    }
    proof {
        assert(ids@ =~= removed1@ + removed2@ + added1@.dom() + added2@.dom());
    }
    ids
}

/// Whether two deltas can follow one another: no id stands in a state that
/// the combination table rules out.
pub open spec fn combinable<A, B>(
    added1: Map<A, B>,
    removed1: Set<A>,
    added2: Map<A, B>,
    removed2: Set<A>,
) -> bool {
    forall|k: A|
        !contradictory(
            removed1.contains(k),
            removed2.contains(k),
            added1.contains_key(k),
            #[trigger] added2.contains_key(k),
        )
}

/// What the combination of two deltas adds.
pub open spec fn combined_added<A, B>(
    added1: Map<A, B>,
    removed1: Set<A>,
    added2: Map<A, B>,
    removed2: Set<A>,
) -> Map<A, B> {
    Map::new(
        |k: A|
            combined_adds(
                removed1.contains(k),
                removed2.contains(k),
                added1.contains_key(k),
                added2.contains_key(k),
            ) is Some,
        |k: A|
            if added2.contains_key(k) {
                added2[k]
            } else {
                added1[k]
            },
    )
}

/// What the combination of two deltas removes.
pub open spec fn combined_removed<A, B>(
    added1: Map<A, B>,
    removed1: Set<A>,
    added2: Map<A, B>,
    removed2: Set<A>,
) -> Set<A> {
    Set::new(
        |k: A|
            combined_removes(
                removed1.contains(k),
                removed2.contains(k),
                added1.contains_key(k),
                added2.contains_key(k),
            ),
    )
}

/// Folds two deltas that follow one another into one. `None` when some id
/// stands in a state that the combination table rules out.
pub fn combine_entries<K: Item, V: Item>(
    added1: &KeyedMap<K, V>,
    removed1: &KeyedSet<K>,
    added2: &KeyedMap<K, V>,
    removed2: &KeyedSet<K>,
) -> (combo: Option<(KeyedMap<K, V>, KeyedSet<K>)>)
    ensures
        combo is Some <==> combinable(added1@, removed1@, added2@, removed2@),
        combo matches Some(c) ==> c.0@ == combined_added(added1@, removed1@, added2@, removed2@)
            && c.1@ == combined_removed(added1@, removed1@, added2@, removed2@),
{
    let ids = get_all_ids(added1, added2, removed1, removed2);
    let mut added: KeyedMap<K, V> = KeyedMap::new();
    let mut removed: KeyedSet<K> = KeyedSet::new();
    let ghost goal_added = combined_added(added1@, removed1@, added2@, removed2@);
    let ghost goal_removed = combined_removed(added1@, removed1@, added2@, removed2@);
    proof {
        use_type_invariant(&ids);
        ids.lemma_members();
        lemma_take_ends(ids.members());
    }
    let n = ids.len();
    let mut i: usize = 0;
    while i < n
        invariant
            i <= n,
            n == ids.members().len(),
            ids.wf(),
            goal_added == combined_added(added1@, removed1@, added2@, removed2@),
            goal_removed == combined_removed(added1@, removed1@, added2@, removed2@),
            forall|k: K::V| #[trigger]
                among(ids.members(), i as int, k) ==> !contradictory(
                    removed1@.contains(k),
                    removed2@.contains(k),
                    added1@.contains_key(k),
                    added2@.contains_key(k),
                ),
            forall|k: K::V|
                #![trigger added@.contains_key(k)]
                #![trigger among(ids.members(), i as int, k)]
                added@.contains_key(k) <==> among(ids.members(), i as int, k)
                    && goal_added.contains_key(k),
            forall|k: K::V| added@.contains_key(k) ==> #[trigger] added@[k] == goal_added[k],
            forall|k: K::V|
                #![trigger removed@.contains(k)]
                #![trigger among(ids.members(), i as int, k)]
                removed@.contains(k) <==> among(ids.members(), i as int, k)
                    && goal_removed.contains(k),
        decreases n - i,
    {
        let id = ids.member_at(i);
        proof {
            lemma_take_step(ids.members(), i as int);
        }
        let mask = get_diff_diff_mask(
            removed1.contains(id),
            removed2.contains(id),
            added1.contains_key(id),
            added2.contains_key(id),
        );
        match mask {
            None => {
                return None;
            },
            Some((in_removed, added_status)) => {
                if in_removed {
                    removed.insert(id.copy());
                }
                match added_status {
                    Some(false) => {
                        match added1.get(id) {
                            Some(v) => {
                                added.insert(id.copy(), v.copy());
                            },
                            None => {},
                        }
                    },
                    Some(true) => {
                        match added2.get(id) {
                            Some(v) => {
                                added.insert(id.copy(), v.copy());
                            },
                            None => {},
                        }
                    },
                    None => {},
                }
            },
        }
        i += 1;
    }
    proof {
        assert forall|k: K::V|
            !contradictory(
                removed1@.contains(k),
                removed2@.contains(k),
                added1@.contains_key(k),
                #[trigger] added2@.contains_key(k),
            ) by {
            if ids@.contains(k) {
                assert(among(ids.members(), n as int, k));
            }
        }
        assert(added@ =~= goal_added) by {
            assert forall|k: K::V| goal_added.contains_key(k) implies added@.contains_key(k) by {
                assert(ids@.contains(k));
                assert(among(ids.members(), n as int, k));
            }
        }
        assert(removed@ =~= goal_removed) by {
            assert forall|k: K::V| goal_removed.contains(k) implies removed@.contains(k) by {
                assert(ids@.contains(k));
                assert(among(ids.members(), n as int, k));
            }
        }
    }
    Some((added, removed))
}

/// The delta from a collection to itself is empty.
pub proof fn lemma_diff_of_equal_is_empty<A, B>(m: Map<A, B>)
    ensures
        added_entries(m, m) == Map::<A, B>::empty(),
        removed_keys(m, m) == Set::<A>::empty(),
{
    assert(added_entries(m, m) =~= Map::<A, B>::empty());
    assert(removed_keys(m, m) =~= Set::<A>::empty());
}

/// Applying the delta from `prev` to `curr` to `prev` gives `curr`.
pub proof fn lemma_diff_then_apply<A, B>(curr: Map<A, B>, prev: Map<A, B>)
    ensures
        patched(prev, added_entries(curr, prev), removed_keys(curr, prev)) == curr,
{
    assert(patched(prev, added_entries(curr, prev), removed_keys(curr, prev)) =~= curr);
}

/// Whether the first of two deltas fits `base`: what it adds without removing
/// is not yet there.
pub open spec fn fits<A, B>(base: Map<A, B>, added: Map<A, B>, removed: Set<A>) -> bool {
    forall|k: A| #[trigger] added.contains_key(k) && !removed.contains(k) ==> !base.contains_key(k)
}

/// Applying the combination of two deltas is applying the first and then the
/// second, on every base that the first delta fits.
pub proof fn lemma_combined_is_sequential<A, B>(
    base: Map<A, B>,
    added1: Map<A, B>,
    removed1: Set<A>,
    added2: Map<A, B>,
    removed2: Set<A>,
)
    requires
        combinable(added1, removed1, added2, removed2),
        fits(base, added1, removed1),
    ensures
        patched(
            base,
            combined_added(added1, removed1, added2, removed2),
            combined_removed(added1, removed1, added2, removed2),
        ) == patched(patched(base, added1, removed1), added2, removed2),
{
    let left = patched(
        base,
        combined_added(added1, removed1, added2, removed2),
        combined_removed(added1, removed1, added2, removed2),
    );
    let right = patched(patched(base, added1, removed1), added2, removed2);
    assert forall|k: A| left.contains_key(k) <==> right.contains_key(k) by {
        assert(!contradictory(
            removed1.contains(k),
            removed2.contains(k),
            added1.contains_key(k),
            added2.contains_key(k),
        ));
        assert(added1.contains_key(k) && !removed1.contains(k) ==> !base.contains_key(k));
    }
    assert forall|k: A| left.contains_key(k) implies left[k] == right[k] by {
        assert(!contradictory(
            removed1.contains(k),
            removed2.contains(k),
            added1.contains_key(k),
            added2.contains_key(k),
        ));
        assert(added1.contains_key(k) && !removed1.contains(k) ==> !base.contains_key(k));
    }
    assert(left =~= right);
}

/// The deltas along a chain of three collections can always be combined, and
/// the first of them fits the start of the chain.
pub proof fn lemma_chain_is_combinable<A, B>(first: Map<A, B>, second: Map<A, B>, third: Map<A, B>)
    ensures
        combinable(
            added_entries(second, first),
            removed_keys(second, first),
            added_entries(third, second),
            removed_keys(third, second),
        ),
        fits(first, added_entries(second, first), removed_keys(second, first)),
{
}

/// Combining the delta from `first` to `second` with the delta from `second`
/// to `third` and applying the result to `first` gives `third`.
pub proof fn lemma_combined_chain<A, B>(first: Map<A, B>, second: Map<A, B>, third: Map<A, B>)
    ensures
        patched(
            first,
            combined_added(
                added_entries(second, first),
                removed_keys(second, first),
                added_entries(third, second),
                removed_keys(third, second),
            ),
            combined_removed(
                added_entries(second, first),
                removed_keys(second, first),
                added_entries(third, second),
                removed_keys(third, second),
            ),
        ) == third,
{
    lemma_chain_is_combinable(first, second, third);
    lemma_combined_is_sequential(
        first,
        added_entries(second, first),
        removed_keys(second, first),
        added_entries(third, second),
        removed_keys(third, second),
    );
    lemma_diff_then_apply(second, first);
    lemma_diff_then_apply(third, second);
}

/// The entries of a map keyed by pairs whose first component is `a`, keyed by
/// the second component alone.
pub open spec fn entries_under<A, B, V>(m: Map<(A, B), V>, a: A) -> Map<B, V> {
    Map::new(|b: B| m.contains_key((a, b)), |b: B| m[(a, b)])
}

/// The second components of the pairs in a set whose first component is `a`.
pub open spec fn members_under<A, B>(s: Set<(A, B)>, a: A) -> Set<B> {
    Set::new(|b: B| s.contains((a, b)))
}

/// A map with `a` put in front of every key.
pub open spec fn entries_with<A, B, V>(a: A, m: Map<B, V>) -> Map<(A, B), V> {
    Map::new(|k: (A, B)| k.0 == a && m.contains_key(k.1), |k: (A, B)| m[k.1])
}

/// A set with `a` put in front of every member.
pub open spec fn members_with<A, B>(a: A, s: Set<B>) -> Set<(A, B)> {
    Set::new(|k: (A, B)| k.0 == a && s.contains(k.1))
}

/// Picks from a map keyed by pairs the entries that stand under `a`.
pub fn select_entries<A: Item, B: Item, V: Item>(m: &KeyedMap<(A, B), V>, a: &A) -> (part: KeyedMap<
    B,
    V,
>)
    ensures
        part@ == entries_under(m@, a.deep_view()),
{
    let mut part: KeyedMap<B, V> = KeyedMap::new();
    proof {
        use_type_invariant(m);
        m.lemma_entries();
        lemma_take_ends(m.keys());
    }
    let n = m.len();
    let mut i: usize = 0;
    while i < n
        invariant
            i <= n,
            n == m.keys().len(),
            m.wf(),
            forall|b: B::V|
                #![trigger part@.contains_key(b)]
                #![trigger among(m.keys(), i as int, (a.deep_view(), b))]
                part@.contains_key(b) <==> among(m.keys(), i as int, (a.deep_view(), b)),
            forall|b: B::V|
                part@.contains_key(b) ==> #[trigger] part@[b] == m@[(a.deep_view(), b)],
        decreases n - i,
    {
        let key = m.key_at(i);
        proof {
            m.lemma_entries();
            lemma_take_step(m.keys(), i as int);
        }
        if key.0.same(a) {
            part.insert(key.1.copy(), m.value_at(i).copy());
        }
        i += 1;
    }
    proof {
        m.lemma_entries();
        assert(part@ =~= entries_under(m@, a.deep_view()));
    }
    part
}

/// Picks from a set of pairs the members that stand under `a`.
pub fn select_members<A: Item, B: Item>(s: &KeyedSet<(A, B)>, a: &A) -> (part: KeyedSet<B>)
    ensures
        part@ == members_under(s@, a.deep_view()),
{
    let mut part: KeyedSet<B> = KeyedSet::new();
    proof {
        use_type_invariant(s);
        s.lemma_members();
        lemma_take_ends(s.members());
    }
    let n = s.len();
    let mut i: usize = 0;
    while i < n
        invariant
            i <= n,
            n == s.members().len(),
            s.wf(),
            forall|b: B::V|
                #![trigger part@.contains(b)]
                #![trigger among(s.members(), i as int, (a.deep_view(), b))]
                part@.contains(b) <==> among(s.members(), i as int, (a.deep_view(), b)),
        decreases n - i,
    {
        let key = s.member_at(i);
        proof {
            lemma_take_step(s.members(), i as int);
        }
        if key.0.same(a) {
            part.insert(key.1.copy());
        }
        i += 1;
    }
    proof {
        assert(part@ =~= members_under(s@, a.deep_view()));
    }
    part
}

/// Files every entry of `part` in `whole`, under `a` and its own key.
pub fn file_entries<A: Item, B: Item, V: Item>(
    whole: &mut KeyedMap<(A, B), V>,
    a: &A,
    part: &KeyedMap<B, V>,
)
    ensures
        final(whole)@ == old(whole)@.union_prefer_right(entries_with(a.deep_view(), part@)),
{
    let ghost start = whole@;
    proof {
        use_type_invariant(part);
        part.lemma_entries();
        lemma_take_ends(part.keys());
    }
    let n = part.len();
    let mut i: usize = 0;
    while i < n
        invariant
            i <= n,
            n == part.keys().len(),
            part.wf(),
            forall|k: (A::V, B::V)|
                #![trigger whole@.contains_key(k)]
                whole@.contains_key(k) <==> start.contains_key(k) || (k.0 == a.deep_view()
                    && among(part.keys(), i as int, k.1)),
            forall|k: (A::V, B::V)|
                whole@.contains_key(k) ==> #[trigger] whole@[k] == (if k.0 == a.deep_view()
                    && among(part.keys(), i as int, k.1) {
                    part@[k.1]
                } else {
                    start[k]
                }),
        decreases n - i,
    {
        proof {
            part.lemma_entries();
            lemma_take_step(part.keys(), i as int);
        }
        whole.insert((a.copy(), part.key_at(i).copy()), part.value_at(i).copy());
        i += 1;
    }
    proof {
        part.lemma_entries();
        assert(whole@ =~= start.union_prefer_right(entries_with(a.deep_view(), part@)));
    }
}

/// Puts every member of `part` in `whole`, under `a`.
pub fn file_members<A: Item, B: Item>(whole: &mut KeyedSet<(A, B)>, a: &A, part: &KeyedSet<B>)
    ensures
        final(whole)@ == old(whole)@ + members_with(a.deep_view(), part@),
{
    let ghost start = whole@;
    proof {
        use_type_invariant(part);
        part.lemma_members();
        lemma_take_ends(part.members());
    }
    let n = part.len();
    let mut i: usize = 0;
    while i < n
        invariant
            i <= n,
            n == part.members().len(),
            part.wf(),
            forall|k: (A::V, B::V)|
                #![trigger whole@.contains(k)]
                whole@.contains(k) <==> start.contains(k) || (k.0 == a.deep_view() && among(
                    part.members(),
                    i as int,
                    k.1,
                )),
        decreases n - i,
    {
        proof {
            lemma_take_step(part.members(), i as int);
        }
        whole.insert((a.copy(), part.member_at(i).copy()));
        i += 1;
    }
    proof {
        assert(whole@ =~= start + members_with(a.deep_view(), part@));
    }
}

} // verus!
