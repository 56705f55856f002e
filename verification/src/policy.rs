//! Ordering policies: the rule by which a heap decides which of two elements
//! sits nearer the top.

use std::cmp::Ordering;
use vstd::prelude::*;
use vstd::std_specs::cmp::PartialOrdSpec;

verus! {

/// A strict comparison that decides heap order.
///
/// `above(a, b)` reads "`a` should sit strictly above `b`". A policy is
/// `lawful` when its executable comparison may be called on any two values,
/// always answers `above`, and `above` is a strict weak ordering: nothing
/// ranks above itself, ranking above is transitive, and so is "does not rank
/// above".
pub trait Policy<T> {
    /// The mathematical relation this policy stands for.
    spec fn above(&self, a: T, b: T) -> bool;

    /// Whether the executable comparison can be relied on to decide `above`,
    /// and `above` is a strict weak ordering.
    spec fn lawful(&self) -> bool;

    /// No value ranks above itself.
    proof fn lemma_irreflexive(&self, a: T)
        requires
            self.lawful(),
        ensures
            !self.above(a, a),
    ;

    /// Ranking above carries over a middle value.
    proof fn lemma_transitive(&self, a: T, b: T, c: T)
        requires
            self.lawful(),
            self.above(a, b),
            self.above(b, c),
        ensures
            self.above(a, c),
    ;

    /// Not ranking above carries over a middle value.
    proof fn lemma_negatively_transitive(&self, a: T, b: T, c: T)
        requires
            self.lawful(),
            !self.above(a, b),
            !self.above(b, c),
        ensures
            !self.above(a, c),
    ;

    /// Decides whether `a` should sit strictly above `b`.
    fn ranks_above(&self, a: &T, b: &T) -> (r: bool)
        requires
            self.lawful(),
        ensures
            r == self.above(*a, *b),
    ;
}

/// Two values cannot each rank above the other.
pub proof fn lemma_asymmetric<T, P: Policy<T>>(policy: &P, a: T, b: T)
    requires
        policy.lawful(),
        policy.above(a, b),
    ensures
        !policy.above(b, a),
{
    if policy.above(b, a) {
        policy.lemma_transitive(a, b, a);
        policy.lemma_irreflexive(a);
    }
}

/// Smallest first: `a` ranks above `b` when `a < b`.
pub struct Ascending;

/// Largest first: `a` ranks above `b` when `a > b`.
pub struct Descending;

/// `Less` is irreflexive, transitive and negatively transitive on a type
/// whose comparisons obey the laws of a total order.
proof fn lemma_total_order_less<T: Ord>(a: T, b: T, c: T)
    requires
        vstd::laws_cmp::obeys_cmp::<T>(),
    ensures
        a.partial_cmp_spec(&a) != Some(Ordering::Less),
        a.partial_cmp_spec(&b) == Some(Ordering::Less) && b.partial_cmp_spec(&c) == Some(
            Ordering::Less,
        ) ==> a.partial_cmp_spec(&c) == Some(Ordering::Less),
        a.partial_cmp_spec(&b) != Some(Ordering::Less) && b.partial_cmp_spec(&c) != Some(
            Ordering::Less,
        ) ==> a.partial_cmp_spec(&c) != Some(Ordering::Less),
        a.partial_cmp_spec(&b) == Some(Ordering::Less) <==> b.partial_cmp_spec(&a) == Some(
            Ordering::Greater,
        ),
{
    reveal(vstd::laws_cmp::obeys_partial_cmp_spec_properties);
    reveal(vstd::laws_cmp::obeys_cmp_partial_ord);
    reveal(vstd::laws_cmp::obeys_cmp_ord);
    reveal(vstd::laws_eq::obeys_eq_spec_properties);
}

impl<T: Ord> Policy<T> for Ascending {
    open spec fn above(&self, a: T, b: T) -> bool {
        a.partial_cmp_spec(&b) == Some(Ordering::Less)
    }

    open spec fn lawful(&self) -> bool {
        vstd::laws_cmp::obeys_cmp::<T>()
    }

    proof fn lemma_irreflexive(&self, a: T) {
        lemma_total_order_less(a, a, a);
    }

    proof fn lemma_transitive(&self, a: T, b: T, c: T) {
        lemma_total_order_less(a, b, c);
    }

    proof fn lemma_negatively_transitive(&self, a: T, b: T, c: T) {
        lemma_total_order_less(a, b, c);
    }

    fn ranks_above(&self, a: &T, b: &T) -> (r: bool) {
        proof {
            reveal(vstd::laws_cmp::obeys_cmp_partial_ord);
        }
        *a < *b
    }
}

impl<T: Ord> Policy<T> for Descending {
    open spec fn above(&self, a: T, b: T) -> bool {
        a.partial_cmp_spec(&b) == Some(Ordering::Greater)
    }

    open spec fn lawful(&self) -> bool {
        vstd::laws_cmp::obeys_cmp::<T>()
    }

    proof fn lemma_irreflexive(&self, a: T) {
        lemma_total_order_less(a, a, a);
    }

    proof fn lemma_transitive(&self, a: T, b: T, c: T) {
        lemma_total_order_less(c, b, a);
        lemma_total_order_less(b, a, a);
        lemma_total_order_less(c, a, a);
    }

    proof fn lemma_negatively_transitive(&self, a: T, b: T, c: T) {
        lemma_total_order_less(c, b, a);
        lemma_total_order_less(b, a, a);
        lemma_total_order_less(c, a, a);
    }

    fn ranks_above(&self, a: &T, b: &T) -> (r: bool) {
        proof {
            reveal(vstd::laws_cmp::obeys_cmp_partial_ord);
        }
        *a > *b
    }
}

/// Whether `relation` is a strict weak ordering: nothing stands in it with
/// itself, it is transitive, and so is its negation.
pub open spec fn strict_weak_order<T>(relation: spec_fn(T, T) -> bool) -> bool {
    &&& forall|a: T| !#[trigger] relation(a, a)
    &&& forall|a: T, b: T, c: T|
        #[trigger] relation(a, b) && #[trigger] relation(b, c) ==> relation(a, c)
    &&& forall|a: T, b: T, c: T|
        !#[trigger] relation(a, b) && !#[trigger] relation(b, c) ==> !relation(a, c)
}

/// Whether the comparison `f` decides `relation`: it may be called on any
/// two values, answers nothing but what `relation` says of them, and
/// `relation` is a strict weak ordering.
pub open spec fn decides<T, F: Fn(&T, &T) -> bool>(f: F, relation: spec_fn(T, T) -> bool) -> bool {
    &&& forall|a: T, b: T| #[trigger] call_requires(f, (&a, &b))
    &&& forall|a: T, b: T, r: bool| #[trigger] call_ensures(f, (&a, &b), r) ==> r == relation(a, b)
    &&& strict_weak_order(relation)
}

/// Any comparison function or closure is a policy. It is lawful when there
/// is a strict weak ordering that it decides, and `above` is then such an
/// ordering. A policy whose ordering is to be known exactly is better
/// written as a type of its own.
impl<T, F: Fn(&T, &T) -> bool> Policy<T> for F {
    open spec fn above(&self, a: T, b: T) -> bool {
        (choose|relation: spec_fn(T, T) -> bool| decides(*self, relation))(a, b)
    }

    open spec fn lawful(&self) -> bool {
        exists|relation: spec_fn(T, T) -> bool| decides(*self, relation)
    }

    proof fn lemma_irreflexive(&self, a: T) {
    }

    proof fn lemma_transitive(&self, a: T, b: T, c: T) {
    }

    proof fn lemma_negatively_transitive(&self, a: T, b: T, c: T) {
    }

    fn ranks_above(&self, a: &T, b: &T) -> (r: bool) {
        self(a, b)
    }
}

/// A comparison that decides some strict weak ordering is a lawful policy.
pub proof fn lemma_deciding_is_lawful<T, F: Fn(&T, &T) -> bool>(
    f: F,
    relation: spec_fn(T, T) -> bool,
)
    requires
        decides(f, relation),
    ensures
        f.lawful(),
{
}

} // verus!
