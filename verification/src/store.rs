//! The backing store of a heap as a mathematical sequence.
//!
//! Slot 0 is a sentinel that holds no element. The element in slot `i >= 1`
//! has its parent in slot `i / 2` and its children in slots `2 * i` and
//! `2 * i + 1`.

use crate::policy::{lemma_asymmetric, Policy};
use vstd::multiset::Multiset;
use vstd::prelude::*;

verus! {

/// The heap property: no element ranks above its parent.
pub open spec fn heap_ordered<T, P: Policy<T>>(policy: P, s: Seq<T>) -> bool {
    forall|i: int| 2 <= i < s.len() ==> !policy.above(#[trigger] s[i], s[i / 2])
}

/// The elements of a store: everything but the sentinel, without regard to
/// position.
pub open spec fn contents<T>(s: Seq<T>) -> Multiset<T> {
    s.skip(1).to_multiset()
}

/// The store with the values in slots `i` and `j` exchanged.
pub open spec fn swapped<T>(s: Seq<T>, i: int, j: int) -> Seq<T> {
    s.update(i, s[j]).update(j, s[i])
}

/// The store after the element in slot `i` has risen as long as it ranks
/// above its parent.
pub open spec fn sifted_up<T, P: Policy<T>>(policy: P, s: Seq<T>, i: int) -> Seq<T>
    decreases i,
{
    if 1 < i < s.len() && policy.above(s[i], s[i / 2]) {
        sifted_up(policy, swapped(s, i, i / 2), i / 2)
    } else {
        s
    }
}

/// The child of slot `i` that ranks above the other: the left one where it
/// is the only one or ranks above the right one, else the right one.
pub open spec fn best_child<T, P: Policy<T>>(policy: P, s: Seq<T>, i: int) -> int {
    if 2 * i + 1 >= s.len() || policy.above(s[2 * i], s[2 * i + 1]) {
        2 * i
    } else {
        2 * i + 1
    }
}

/// The store after the element in slot `i` has sunk as long as its best child
/// ranks above it.
pub open spec fn sifted_down<T, P: Policy<T>>(policy: P, s: Seq<T>, i: int) -> Seq<T>
    decreases s.len() - i,
{
    if 1 <= i && 2 * i < s.len() && policy.above(s[best_child(policy, s, i)], s[i]) {
        sifted_down(policy, swapped(s, i, best_child(policy, s, i)), best_child(policy, s, i))
    } else {
        s
    }
}

/// The store after `value` has been added: appended, then sifted up.
pub open spec fn after_add<T, P: Policy<T>>(policy: P, s: Seq<T>, value: T) -> Seq<T> {
    sifted_up(policy, s.push(value), s.len() as int)
}

/// The store after its top has been taken out: the last element moves to
/// slot 1, the store shrinks by one, and the moved element is sifted down.
pub open spec fn after_extract<T, P: Policy<T>>(policy: P, s: Seq<T>) -> Seq<T> {
    sifted_down(policy, s.update(1, s.last()).drop_last(), 1)
}

/// The heap property everywhere but between slot `i` and its parent, where
/// the children of `i` already respect the parent of `i`.
pub open spec fn ordered_except_at<T, P: Policy<T>>(policy: P, s: Seq<T>, i: int) -> bool {
    &&& forall|j: int| 2 <= j < s.len() && j != i ==> !policy.above(#[trigger] s[j], s[j / 2])
    &&& forall|j: int|
        2 <= j < s.len() && j / 2 == i && i >= 2 ==> !policy.above(#[trigger] s[j], s[i / 2])
}

/// The heap property everywhere but between slot `i` and its children, where
/// the children of `i` already respect the parent of `i`.
pub open spec fn ordered_except_below<T, P: Policy<T>>(policy: P, s: Seq<T>, i: int) -> bool {
    &&& forall|j: int| 2 <= j < s.len() && j / 2 != i ==> !policy.above(#[trigger] s[j], s[j / 2])
    &&& forall|j: int|
        2 <= j < s.len() && j / 2 == i && i >= 2 ==> !policy.above(#[trigger] s[j], s[i / 2])
}

/// A store that holds the sentinel alone has no contents.
pub proof fn lemma_empty_contents<T>(s: Seq<T>)
    requires
        s.len() == 1,
    ensures
        contents(s) == Multiset::<T>::empty(),
{
    vstd::seq_lib::to_multiset_len(s.skip(1));
    vstd::multiset::lemma_multiset_empty_len(contents(s));
}

/// Exchanging two element slots changes neither the length nor the contents.
pub proof fn lemma_swapped_contents<T>(s: Seq<T>, i: int, j: int)
    requires
        1 <= i < s.len(),
        1 <= j < s.len(),
    ensures
        swapped(s, i, j).len() == s.len(),
        swapped(s, i, j)[0] == s[0],
        contents(swapped(s, i, j)) == contents(s),
{
    let t = s.skip(1);
    let u = t.update(i - 1, t[j - 1]).update(j - 1, t[i - 1]);
    assert(swapped(s, i, j).skip(1) =~= u);
    vstd::seq_lib::to_multiset_update(t, i - 1, t[j - 1]);
    vstd::seq_lib::to_multiset_update(t.update(i - 1, t[j - 1]), j - 1, t[i - 1]);
    vstd::seq_lib::to_multiset_contains(t, t[i - 1]);
    vstd::seq_lib::to_multiset_contains(t, t[j - 1]);
    assert(t.contains(t[i - 1]));
    assert(t.contains(t[j - 1]));
    assert(u.to_multiset() =~= t.to_multiset());
}

/// Sifting up moves elements only: length, sentinel and contents stay.
pub proof fn lemma_sifted_up_contents<T, P: Policy<T>>(policy: P, s: Seq<T>, i: int)
    requires
        0 <= i < s.len(),
    ensures
        sifted_up(policy, s, i).len() == s.len(),
        sifted_up(policy, s, i)[0] == s[0],
        contents(sifted_up(policy, s, i)) == contents(s),
    decreases i,
{
    if 1 < i < s.len() && policy.above(s[i], s[i / 2]) {
        lemma_swapped_contents(s, i, i / 2);
        lemma_sifted_up_contents(policy, swapped(s, i, i / 2), i / 2);
    }
}

/// Sifting down moves elements only: length, sentinel and contents stay.
pub proof fn lemma_sifted_down_contents<T, P: Policy<T>>(policy: P, s: Seq<T>, i: int)
    requires
        1 <= i,
    ensures
        sifted_down(policy, s, i).len() == s.len(),
        s.len() > 0 ==> sifted_down(policy, s, i)[0] == s[0],
        contents(sifted_down(policy, s, i)) == contents(s),
    decreases s.len() - i,
{
    let c = best_child(policy, s, i);
    if 1 <= i && 2 * i < s.len() && policy.above(s[c], s[i]) {
        lemma_swapped_contents(s, i, c);
        lemma_sifted_down_contents(policy, swapped(s, i, c), c);
    }
}

/// Sifting up from the one slot that may break the heap property restores
/// it everywhere.
pub proof fn lemma_sifted_up_ordered<T, P: Policy<T>>(policy: P, s: Seq<T>, i: int)
    requires
        policy.lawful(),
        1 <= i < s.len(),
        ordered_except_at(policy, s, i),
    ensures
        heap_ordered(policy, sifted_up(policy, s, i)),
    decreases i,
{
    let q = i / 2;
    if 1 < i && policy.above(s[i], s[q]) {
        let t = swapped(s, i, q);
        lemma_asymmetric(&policy, s[i], s[q]);
        assert forall|j: int| 2 <= j < t.len() && j != q implies !policy.above(
            #[trigger] t[j],
            t[j / 2],
        ) by {
            if j == i {
            } else if j / 2 == q {
                if policy.above(s[j], s[i]) {
                    policy.lemma_transitive(s[j], s[i], s[q]);
                }
            } else if j / 2 == i {
                assert(!policy.above(s[j], s[i / 2]));
            } else {
                assert(!policy.above(s[j], s[j / 2]));
            }
        }
        assert forall|j: int| 2 <= j < t.len() && j / 2 == q && q >= 2 implies !policy.above(
            #[trigger] t[j],
            t[q / 2],
        ) by {
            assert(!policy.above(s[q], s[q / 2]));
            if j != i {
                assert(!policy.above(s[j], s[q]));
                policy.lemma_negatively_transitive(s[j], s[q], s[q / 2]);
            }
        }
        lemma_sifted_up_ordered(policy, t, q);
    } else {
        assert forall|j: int| 2 <= j < s.len() implies !policy.above(#[trigger] s[j], s[j / 2]) by {
        }
    }
}

/// Sifting down from the one slot whose children may rank above it restores
/// the heap property everywhere.
pub proof fn lemma_sifted_down_ordered<T, P: Policy<T>>(policy: P, s: Seq<T>, i: int)
    requires
        policy.lawful(),
        1 <= i,
        ordered_except_below(policy, s, i),
    ensures
        heap_ordered(policy, sifted_down(policy, s, i)),
    decreases s.len() - i,
{
    let c = best_child(policy, s, i);
    let left = 2 * i;
    let right = 2 * i + 1;
    if 2 * i < s.len() {
        if right < s.len() {
            if policy.above(s[left], s[right]) {
                lemma_asymmetric(&policy, s[left], s[right]);
            }
        }
        if policy.above(s[c], s[i]) {
            let t = swapped(s, i, c);
            lemma_asymmetric(&policy, s[c], s[i]);
            assert forall|j: int| 2 <= j < t.len() && j / 2 != c implies !policy.above(
                #[trigger] t[j],
                t[j / 2],
            ) by {
                if j == c {
                } else if j / 2 == i {
                } else if j == i {
                    assert(!policy.above(s[c], s[i / 2]));
                } else {
                    assert(!policy.above(s[j], s[j / 2]));
                }
            }
            assert forall|j: int| 2 <= j < t.len() && j / 2 == c && c >= 2 implies !policy.above(
                #[trigger] t[j],
                t[c / 2],
            ) by {
                assert(!policy.above(s[j], s[j / 2]));
            }
            lemma_sifted_down_ordered(policy, t, c);
        } else {
            assert forall|j: int| 2 <= j < s.len() implies !policy.above(
                #[trigger] s[j],
                s[j / 2],
            ) by {
                if j / 2 == i && j != c {
                    if c == left {
                        policy.lemma_negatively_transitive(s[right], s[left], s[i]);
                    } else {
                        policy.lemma_negatively_transitive(s[left], s[right], s[i]);
                    }
                }
            }
        }
    } else {
        assert forall|j: int| 2 <= j < s.len() implies !policy.above(#[trigger] s[j], s[j / 2]) by {
        }
    }
}

/// In a heap-ordered store nothing ranks above the element in slot 1.
pub proof fn lemma_top_is_best<T, P: Policy<T>>(policy: P, s: Seq<T>, i: int)
    requires
        policy.lawful(),
        heap_ordered(policy, s),
        1 <= i < s.len(),
    ensures
        !policy.above(s[i], s[1]),
    decreases i,
{
    if i == 1 {
        policy.lemma_irreflexive(s[1]);
    } else {
        lemma_top_is_best(policy, s, i / 2);
        assert(!policy.above(s[i], s[i / 2]));
        policy.lemma_negatively_transitive(s[i], s[i / 2], s[1]);
    }
}

/// Adding to a heap-ordered store gives a heap-ordered store that holds one
/// element more: the old contents and the new value.
pub proof fn lemma_after_add<T, P: Policy<T>>(policy: P, s: Seq<T>, value: T)
    requires
        policy.lawful(),
        s.len() >= 1,
        heap_ordered(policy, s),
    ensures
        heap_ordered(policy, after_add(policy, s, value)),
        after_add(policy, s, value).len() == s.len() + 1,
        after_add(policy, s, value)[0] == s[0],
        contents(after_add(policy, s, value)) == contents(s).insert(value),
{
    let t = s.push(value);
    let n = s.len() as int;
    assert forall|j: int| 2 <= j < t.len() && j != n implies !policy.above(
        #[trigger] t[j],
        t[j / 2],
    ) by {
        assert(!policy.above(s[j], s[j / 2]));
    }
    lemma_sifted_up_ordered(policy, t, n);
    lemma_sifted_up_contents(policy, t, n);
    assert(t.skip(1) =~= s.skip(1).push(value));
    vstd::seq_lib::to_multiset_build(s.skip(1), value);
}

/// Taking the top out of a heap-ordered store gives a heap-ordered store
/// that holds one element less: the old contents without the old top, above
/// which nothing in the old store ranked.
pub proof fn lemma_after_extract<T, P: Policy<T>>(policy: P, s: Seq<T>)
    requires
        policy.lawful(),
        s.len() >= 2,
        heap_ordered(policy, s),
    ensures
        heap_ordered(policy, after_extract(policy, s)),
        after_extract(policy, s).len() == s.len() - 1,
        after_extract(policy, s)[0] == s[0],
        contents(s) == contents(after_extract(policy, s)).insert(s[1]),
        forall|i: int| 1 <= i < s.len() ==> !policy.above(#[trigger] s[i], s[1]),
        forall|x: T| contents(s).contains(x) ==> !policy.above(x, s[1]),
{
    let t = s.update(1, s.last()).drop_last();
    assert forall|j: int| 2 <= j < t.len() && j / 2 != 1 implies !policy.above(
        #[trigger] t[j],
        t[j / 2],
    ) by {
        assert(!policy.above(s[j], s[j / 2]));
    }
    lemma_sifted_down_ordered(policy, t, 1);
    lemma_sifted_down_contents(policy, t, 1);
    let e = s.skip(1);
    let moved = e.update(0, e.last());
    assert(t.skip(1) =~= moved.remove(e.len() - 1));
    vstd::seq_lib::to_multiset_update(e, 0, e.last());
    vstd::seq_lib::to_multiset_remove(moved, e.len() - 1);
    vstd::seq_lib::to_multiset_contains(e, e[0]);
    vstd::seq_lib::to_multiset_contains(e, e.last());
    assert(e.contains(e[0]));
    assert(e.contains(e.last()));
    assert(contents(s) =~= contents(t).insert(s[1]));
    assert forall|i: int| 1 <= i < s.len() implies !policy.above(#[trigger] s[i], s[1]) by {
        lemma_top_is_best(policy, s, i);
    }
    assert forall|x: T| contents(s).contains(x) implies !policy.above(x, s[1]) by {
        vstd::seq_lib::to_multiset_contains(e, x);
        let k = choose|k: int| 0 <= k < e.len() && e[k] == x;
        assert(s[k + 1] == x);
    }
}

} // verus!
