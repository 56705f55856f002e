//! What holds of a heap over a whole run of additions and extractions.
//!
//! `Heap::add` and `Heap::next` say of one call how the store changes:
//! by `after_add`, by `after_extract`, or not at all. The laws here follow
//! those changes over any number of calls.

use crate::policy::Policy;
use crate::store::{
    after_add, after_extract, contents, heap_ordered, lemma_after_add, lemma_after_extract,
    lemma_empty_contents,
};
use vstd::prelude::*;

verus! {

/// One operation on a heap.
pub enum Step<T> {
    /// An addition of the value.
    Add(T),
    /// An extraction, which does nothing to an empty heap.
    Extract,
}

/// The store that `step` makes of the store `s`.
pub open spec fn stepped<T, P: Policy<T>>(policy: P, s: Seq<T>, step: Step<T>) -> Seq<T> {
    match step {
        Step::Add(value) => after_add(policy, s, value),
        Step::Extract => if s.len() > 1 {
            after_extract(policy, s)
        } else {
            s
        },
    }
}

/// The store that `steps`, carried out in order, make of the store `s`.
pub open spec fn replayed<T, P: Policy<T>>(policy: P, s: Seq<T>, steps: Seq<Step<T>>) -> Seq<T>
    decreases steps.len(),
{
    if steps.len() == 0 {
        s
    } else {
        stepped(policy, replayed(policy, s, steps.drop_last()), steps.last())
    }
}

/// How many of `steps` are additions.
pub open spec fn additions<T>(steps: Seq<Step<T>>) -> nat
    decreases steps.len(),
{
    if steps.len() == 0 {
        0
    } else {
        additions(steps.drop_last()) + if steps.last() is Add {
            1nat
        } else {
            0nat
        }
    }
}

/// How many of `steps`, carried out in order on the store `s`, are
/// extractions that find an element to give.
pub open spec fn extractions<T, P: Policy<T>>(policy: P, s: Seq<T>, steps: Seq<Step<T>>) -> nat
    decreases steps.len(),
{
    if steps.len() == 0 {
        0
    } else {
        extractions(policy, s, steps.drop_last()) + if steps.last() is Extract && replayed(
            policy,
            s,
            steps.drop_last(),
        ).len() > 1 {
            1nat
        } else {
            0nat
        }
    }
}

/// The store after `values` have been added one by one to the store `s`.
pub open spec fn filled<T, P: Policy<T>>(policy: P, s: Seq<T>, values: Seq<T>) -> Seq<T>
    decreases values.len(),
{
    if values.len() == 0 {
        s
    } else {
        after_add(policy, filled(policy, s, values.drop_last()), values.last())
    }
}

/// What up to `tries` extractions from the store `s` give, in order: they
/// end where the store is empty.
pub open spec fn extracted<T, P: Policy<T>>(policy: P, s: Seq<T>, tries: nat) -> Seq<T>
    decreases tries,
{
    if tries == 0 || s.len() <= 1 {
        Seq::<T>::empty()
    } else {
        seq![s[1]] + extracted(policy, after_extract(policy, s), (tries - 1) as nat)
    }
}

/// The heap property holds after every operation: whatever additions and
/// extractions are carried out on a heap-ordered store, no element of the
/// store they leave ranks above its parent.
pub proof fn lemma_heap_property_invariant<T, P: Policy<T>>(
    policy: P,
    s: Seq<T>,
    steps: Seq<Step<T>>,
)
    requires
        policy.lawful(),
        s.len() >= 1,
        heap_ordered(policy, s),
    ensures
        replayed(policy, s, steps).len() >= 1,
        heap_ordered(policy, replayed(policy, s, steps)),
        forall|i: int|
            2 <= i < replayed(policy, s, steps).len() ==> !policy.above(
                #[trigger] replayed(policy, s, steps)[i],
                replayed(policy, s, steps)[i / 2],
            ),
    decreases steps.len(),
{
    if steps.len() > 0 {
        lemma_heap_property_invariant(policy, s, steps.drop_last());
        let before = replayed(policy, s, steps.drop_last());
        match steps.last() {
            Step::Add(value) => {
                lemma_after_add(policy, before, value);
            },
            Step::Extract => {
                if before.len() > 1 {
                    lemma_after_extract(policy, before);
                }
            },
        }
    }
}

/// Size accounting: after any additions and extractions, a heap holds as
/// many elements as it held before, plus the additions, minus the
/// extractions that found an element to give.
pub proof fn lemma_size_accounting<T, P: Policy<T>>(policy: P, s: Seq<T>, steps: Seq<Step<T>>)
    requires
        policy.lawful(),
        s.len() >= 1,
        heap_ordered(policy, s),
    ensures
        replayed(policy, s, steps).len() - 1 == (s.len() - 1) + additions(steps) - extractions(
            policy,
            s,
            steps,
        ),
    decreases steps.len(),
{
    if steps.len() > 0 {
        lemma_size_accounting(policy, s, steps.drop_last());
        lemma_heap_property_invariant(policy, s, steps.drop_last());
        let before = replayed(policy, s, steps.drop_last());
        match steps.last() {
            Step::Add(value) => {
                lemma_after_add(policy, before, value);
            },
            Step::Extract => {
                if before.len() > 1 {
                    lemma_after_extract(policy, before);
                }
            },
        }
    }
}

/// Adding values one by one to a heap-ordered store leaves a heap-ordered
/// store that holds what it held before and the values.
pub proof fn lemma_filled<T, P: Policy<T>>(policy: P, s: Seq<T>, values: Seq<T>)
    requires
        policy.lawful(),
        s.len() >= 1,
        heap_ordered(policy, s),
    ensures
        heap_ordered(policy, filled(policy, s, values)),
        filled(policy, s, values).len() == s.len() + values.len(),
        contents(filled(policy, s, values)) == contents(s).add(values.to_multiset()),
    decreases values.len(),
{
    broadcast use vstd::multiset::group_multiset_axioms;

    if values.len() == 0 {
        vstd::seq_lib::to_multiset_len(values);
        vstd::multiset::lemma_multiset_empty_len(values.to_multiset());
        assert(contents(s).add(values.to_multiset()) =~= contents(s));
    } else {
        let before = filled(policy, s, values.drop_last());
        lemma_filled(policy, s, values.drop_last());
        lemma_after_add(policy, before, values.last());
        assert(values.drop_last().push(values.last()) =~= values);
        vstd::seq_lib::to_multiset_build(values.drop_last(), values.last());
        assert(contents(before).insert(values.last()) =~= contents(s).add(values.to_multiset()));
    }
}

/// Extracting from a heap-ordered store until it is empty gives each of its
/// elements once, and none that a later one ranks above.
pub proof fn lemma_extracted<T, P: Policy<T>>(policy: P, s: Seq<T>, tries: nat)
    requires
        policy.lawful(),
        s.len() >= 1,
        heap_ordered(policy, s),
        tries >= s.len() - 1,
    ensures
        extracted(policy, s, tries).len() == s.len() - 1,
        extracted(policy, s, tries).to_multiset() == contents(s),
        forall|i: int, j: int|
            0 <= i <= j < extracted(policy, s, tries).len() ==> !policy.above(
                extracted(policy, s, tries)[j],
                extracted(policy, s, tries)[i],
            ),
    decreases tries,
{
    broadcast use vstd::multiset::group_multiset_axioms;

    let out = extracted(policy, s, tries);
    if s.len() <= 1 {
        lemma_empty_contents(s);
        vstd::seq_lib::to_multiset_len(out);
        vstd::multiset::lemma_multiset_empty_len(out.to_multiset());
    } else {
        let rest_store = after_extract(policy, s);
        let rest = extracted(policy, rest_store, (tries - 1) as nat);
        lemma_after_extract(policy, s);
        lemma_extracted(policy, rest_store, (tries - 1) as nat);
        assert(out =~= seq![s[1]] + rest);
        assert(out.drop_first() =~= rest);
        vstd::seq_lib::to_multiset_insert(rest, 0, s[1]);
        assert(rest.insert(0, s[1]) =~= out);
        assert forall|i: int, j: int| 0 <= i <= j < out.len() implies !policy.above(
            out[j],
            out[i],
        ) by {
            if i == 0 {
                if j == 0 {
                    policy.lemma_irreflexive(s[1]);
                } else {
                    vstd::seq_lib::to_multiset_contains(rest, rest[j - 1]);
                    assert(rest.contains(rest[j - 1]));
                    assert(contents(rest_store).contains(rest[j - 1]));
                    assert(contents(s).contains(rest[j - 1]));
                }
            } else {
                assert(!policy.above(rest[j - 1], rest[i - 1]));
            }
        }
    }
}

/// Round trip: adding `values` to an empty heap and then extracting until
/// it is empty gives as many elements as were added, the same ones, and
/// each at a time when nothing still in the heap ranked above it.
pub proof fn lemma_round_trip<T, P: Policy<T>>(policy: P, empty: Seq<T>, values: Seq<T>, tries: nat)
    requires
        policy.lawful(),
        empty.len() == 1,
        tries >= values.len(),
    ensures
        extracted(policy, filled(policy, empty, values), tries).len() == values.len(),
        extracted(policy, filled(policy, empty, values), tries).to_multiset()
            == values.to_multiset(),
        forall|i: int, j: int|
            0 <= i <= j < values.len() ==> !policy.above(
                extracted(policy, filled(policy, empty, values), tries)[j],
                extracted(policy, filled(policy, empty, values), tries)[i],
            ),
{
    broadcast use vstd::multiset::group_multiset_axioms;

    lemma_filled(policy, empty, values);
    lemma_empty_contents(empty);
    lemma_extracted(policy, filled(policy, empty, values), tries);
    assert(contents(empty).add(values.to_multiset()) =~= values.to_multiset());
}

/// An empty heap gives nothing, however often it is asked.
pub proof fn lemma_empty_gives_nothing<T, P: Policy<T>>(policy: P, empty: Seq<T>, tries: nat)
    requires
        empty.len() == 1,
    ensures
        extracted(policy, empty, tries) == Seq::<T>::empty(),
        stepped(policy, empty, Step::Extract) == empty,
{
}

} // verus!
