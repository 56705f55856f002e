//! A binary heap in a flat vector, ordered by a policy.

use crate::policy::{Ascending, Descending, Policy};
use crate::store::{
    after_add, after_extract, best_child, contents, heap_ordered, lemma_after_add,
    lemma_after_extract, lemma_empty_contents, sifted_down, sifted_up, swapped,
};
use vstd::multiset::Multiset;
use vstd::prelude::*;

verus! {

/// `<[T]>::swap` of std, reached through the vector: exchanges the values at
/// two indices and leaves every other index, and the length, as they were.
/// It panics on an index out of bounds, which the precondition rules out.
#[verifier::external_body]
fn swap_items<T>(items: &mut Vec<T>, a: usize, b: usize)
    requires
        a < old(items)@.len(),
        b < old(items)@.len(),
    ensures
        final(items)@ == swapped(old(items)@, a as int, b as int),
{
    items.swap(a, b);
}

/// A binary heap: the element that its policy ranks above all others comes
/// out first.
pub struct Heap<T, P> where T: Default, P: Policy<T> {
    count: usize,
    items: Vec<T>,
    comparator: P,
}

impl<T, P> Heap<T, P> where T: Default, P: Policy<T> {
    /// The backing store: slot 0 is the sentinel, the elements follow.
    pub closed spec fn store(&self) -> Seq<T> {
        self.items@
    }

    /// The policy this heap was made with.
    pub closed spec fn policy(&self) -> P {
        self.comparator
    }

    /// The number of elements, as the heap counts them.
    pub closed spec fn spec_len(&self) -> usize {
        self.count
    }

    /// The elements of the heap, without regard to position.
    pub open spec fn view(&self) -> Multiset<T> {
        contents(self.store())
    }

    /// What holds of a heap between operations: its policy is lawful, the
    /// store holds the sentinel and the counted elements, and no element
    /// ranks above its parent.
    pub open spec fn well_formed(&self) -> bool {
        &&& self.policy().lawful()
        &&& self.store().len() == self.len() + 1
        &&& heap_ordered(self.policy(), self.store())
    }

    /// An empty heap ordered by `comparator`.
    pub fn new(comparator: P) -> (heap: Self)
        requires
            comparator.lawful(),
        ensures
            heap.well_formed(),
            heap.policy() == comparator,
            heap.len() == 0,
            heap@ == Multiset::<T>::empty(),
            call_ensures(T::default, (), heap.store()[0]),
    {
        let mut items: Vec<T> = Vec::new();
        items.push(T::default());
        proof {
            lemma_empty_contents(items@);
        }
        Self { count: 0, items, comparator }
    }

    /// The number of elements.
    #[verifier::when_used_as_spec(spec_len)]
    pub fn len(&self) -> (n: usize)
        ensures
            n == self.len(),
            self.well_formed() ==> n == self@.len(),
    {
        proof {
            vstd::seq_lib::to_multiset_len(self.items@.skip(1));
        }
        self.count
    }

    /// Whether the heap holds no element.
    pub fn is_empty(&self) -> (empty: bool)
        ensures
            empty == (self.len() == 0),
            self.well_formed() ==> empty == (self@.len() == 0),
    {
        self.len() == 0
    }

    /// Puts `value` into the heap: it goes to the end of the store and rises
    /// as long as it ranks above its parent.
    pub fn add(&mut self, value: T)
        requires
            old(self).well_formed(),
        ensures
            final(self).well_formed(),
            final(self).policy() == old(self).policy(),
            final(self).store() == after_add(old(self).policy(), old(self).store(), value),
            final(self).len() == old(self).len() + 1,
            final(self)@ == old(self)@.insert(value),
    {
        let ghost target = after_add(self.comparator, self.items@, value);
        proof {
            lemma_after_add(self.comparator, self.items@, value);
        }
        self.items.push(value);
        proof {
            vstd::std_specs::vec::axiom_spec_len(&self.items);
        }
        self.count += 1;

        let mut current_idx = self.count;
        while current_idx > 1
            invariant
                self.comparator == old(self).comparator,
                self.comparator.lawful(),
                self.count == old(self).count + 1,
                self.items@.len() == self.count + 1,
                1 <= current_idx <= self.count,
                sifted_up(self.comparator, self.items@, current_idx as int) == target,
            ensures
                self.comparator == old(self).comparator,
                self.count == old(self).count + 1,
                self.items@ == target,
            decreases current_idx,
        {
            let parent_idx = self.parent_idx(current_idx);
            if self.comparator.ranks_above(&self.items[current_idx], &self.items[parent_idx]) {
                swap_items(&mut self.items, current_idx, parent_idx);
                current_idx = parent_idx;
            } else {
                break ;
            }
        }
    }

    /// The slot of the parent of slot `idx`.
    fn parent_idx(&self, idx: usize) -> (parent: usize)
        ensures
            parent == idx / 2,
    {
        idx / 2
    }

    /// Whether slot `idx` has a child in the store.
    fn children_present(&self, idx: usize) -> (present: bool)
        ensures
            present == (2 * idx <= self.len()),
    {
        idx <= self.count / 2
    }

    /// The slot of the left child of slot `idx`.
    fn left_child_idx(&self, idx: usize) -> (left: usize)
        requires
            2 * idx <= usize::MAX,
        ensures
            left == 2 * idx,
    {
        idx * 2
    }

    /// The slot of the right child of slot `idx`.
    fn right_child_idx(&self, idx: usize) -> (right: usize)
        requires
            2 * idx + 1 <= usize::MAX,
        ensures
            right == 2 * idx + 1,
    {
        self.left_child_idx(idx) + 1
    }

    /// The slot of the child of `idx` that ranks above the other: the left
    /// one where it is the only one or ranks above the right one, else the
    /// right one.
    fn smallest_child_idx(&self, idx: usize) -> (child: usize)
        requires
            self.policy().lawful(),
            self.store().len() == self.len() + 1,
            2 * idx <= self.len(),
        ensures
            child == best_child(self.policy(), self.store(), idx as int),
            child == 2 * idx || child == 2 * idx + 1,
            child <= self.len(),
    {
        proof {
            vstd::std_specs::vec::axiom_spec_len(&self.items);
        }
        let left_idx = self.left_child_idx(idx);
        let right_idx = self.right_child_idx(idx);

        if right_idx > self.count {
            return left_idx;
        }
        if self.comparator.ranks_above(&self.items[left_idx], &self.items[right_idx]) {
            left_idx
        } else {
            right_idx
        }
    }

    /// Takes the top of the heap out, or signals with `None` that the heap
    /// is empty: the last element moves to the top and sinks as long as its
    /// best child ranks above it.
    pub fn next(&mut self) -> (top: Option<T>)
        requires
            old(self).well_formed(),
        ensures
            final(self).well_formed(),
            final(self).policy() == old(self).policy(),
            top is Some <==> old(self).len() > 0,
            top is None ==> final(self).store() == old(self).store() && final(self).len() == 0,
            top is Some ==> {
                &&& top == Some(old(self).store()[1])
                &&& final(self).store() == after_extract(old(self).policy(), old(self).store())
                &&& final(self).len() == old(self).len() - 1
                &&& old(self)@ == final(self)@.insert(top->0)
                &&& forall|x: T| old(self)@.contains(x) ==> !old(self).policy().above(x, top->0)
            },
    {
        if self.is_empty() {
            return None;
        }
        let ghost target = after_extract(self.comparator, self.items@);
        proof {
            lemma_after_extract(self.comparator, self.items@);
        }
        let top = self.items.swap_remove(1);
        self.count -= 1;

        let mut current_idx: usize = 1;
        while self.children_present(current_idx)
            invariant
                self.comparator == old(self).comparator,
                self.comparator.lawful(),
                self.count == old(self).count - 1,
                self.items@.len() == self.count + 1,
                1 <= current_idx,
                sifted_down(self.comparator, self.items@, current_idx as int) == target,
            ensures
                self.comparator == old(self).comparator,
                self.count == old(self).count - 1,
                self.items@ == target,
            decreases self.count - current_idx,
        {
            let best_child_idx = self.smallest_child_idx(current_idx);
            if self.comparator.ranks_above(&self.items[best_child_idx], &self.items[current_idx]) {
                swap_items(&mut self.items, current_idx, best_child_idx);
                current_idx = best_child_idx;
            } else {
                break ;
            }
        }
        Some(top)
    }
}

impl<T> Heap<T, Ascending> where T: Default + Ord {
    /// An empty heap that gives its smallest element first.
    pub fn new_min() -> (heap: Self)
        requires
            Policy::<T>::lawful(&Ascending),
        ensures
            heap.well_formed(),
            heap.policy() == Ascending,
            heap.len() == 0,
            heap@ == Multiset::<T>::empty(),
            call_ensures(T::default, (), heap.store()[0]),
    {
        Self::new(Ascending)
    }
}

impl<T> Heap<T, Descending> where T: Default + Ord {
    /// An empty heap that gives its largest element first.
    pub fn new_max() -> (heap: Self)
        requires
            Policy::<T>::lawful(&Descending),
        ensures
            heap.well_formed(),
            heap.policy() == Descending,
            heap.len() == 0,
            heap@ == Multiset::<T>::empty(),
            call_ensures(T::default, (), heap.store()[0]),
    {
        Self::new(Descending)
    }
}

/// Maker of heaps that give their smallest element first.
pub struct MinHeap;

impl MinHeap {
    /// An empty heap that gives its smallest element first.
    pub fn new<T>() -> (heap: Heap<T, Ascending>) where T: Default + Ord
        requires
            Policy::<T>::lawful(&Ascending),
        ensures
            heap.well_formed(),
            heap.policy() == Ascending,
            heap.len() == 0,
            heap@ == Multiset::<T>::empty(),
            call_ensures(T::default, (), heap.store()[0]),
    {
        Heap::new(Ascending)
    }
}

/// Maker of heaps that give their largest element first.
pub struct MaxHeap;

impl MaxHeap {
    /// An empty heap that gives its largest element first.
    pub fn new<T>() -> (heap: Heap<T, Descending>) where T: Default + Ord
        requires
            Policy::<T>::lawful(&Descending),
        ensures
            heap.well_formed(),
            heap.policy() == Descending,
            heap.len() == 0,
            heap@ == Multiset::<T>::empty(),
            call_ensures(T::default, (), heap.store()[0]),
    {
        Heap::new(Descending)
    }
}

} // verus!
