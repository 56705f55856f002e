use binheap::heap::{Heap, MaxHeap, MinHeap};

#[test]
fn test_empty_heap() {
    let mut heap = MaxHeap::new::<i32>();
    assert_eq!(heap.next(), None);
}

#[test]
fn test_min_heap() {
    let mut heap = MinHeap::new();
    heap.add(4);
    heap.add(2);
    heap.add(9);
    heap.add(11);
    assert_eq!(heap.len(), 4);
    assert_eq!(heap.next(), Some(2));
    assert_eq!(heap.next(), Some(4));
    assert_eq!(heap.next(), Some(9));
    heap.add(1);
    assert_eq!(heap.next(), Some(1));
}

#[test]
fn test_max_heap() {
    let mut heap = MaxHeap::new();
    heap.add(4);
    heap.add(2);
    heap.add(9);
    heap.add(11);
    assert_eq!(heap.len(), 4);
    assert_eq!(heap.next(), Some(11));
    assert_eq!(heap.next(), Some(9));
    assert_eq!(heap.next(), Some(4));
    heap.add(1);
    assert_eq!(heap.next(), Some(2));
}

fn shorter(a: &String, b: &String) -> bool {
    a.len() < b.len()
}

#[test]
fn heap_takes_a_function_as_policy() {
    let mut heap = Heap::new(shorter);
    heap.add(String::from("ccc"));
    heap.add(String::from("a"));
    heap.add(String::from("bb"));
    assert_eq!(heap.len(), 3);
    assert_eq!(heap.next(), Some(String::from("a")));
    assert_eq!(heap.next(), Some(String::from("bb")));
    assert_eq!(heap.next(), Some(String::from("ccc")));
    assert_eq!(heap.next(), None);
}

#[test]
fn heap_takes_a_closure_as_policy() {
    let mut heap = Heap::new(|a: &i32, b: &i32| a.abs() < b.abs());
    heap.add(-5);
    heap.add(2);
    heap.add(-1);
    assert_eq!(heap.next(), Some(-1));
    assert_eq!(heap.next(), Some(2));
    assert_eq!(heap.next(), Some(-5));
}

fn drain<P: binheap::policy::Policy<i32>>(heap: &mut Heap<i32, P>) -> Vec<i32> {
    let mut out = Vec::new();
    while let Some(top) = heap.next() {
        out.push(top);
    }
    out
}

#[test]
fn min_heap_gives_sorted_output() {
    let mut heap = MinHeap::new();
    for value in [4, 2, 9, 11] {
        heap.add(value);
    }
    assert_eq!(drain(&mut heap), vec![2, 4, 9, 11]);
}

#[test]
fn max_heap_gives_sorted_output() {
    let mut heap = MaxHeap::new();
    for value in [4, 2, 9, 11] {
        heap.add(value);
    }
    assert_eq!(drain(&mut heap), vec![11, 9, 4, 2]);
}

#[test]
fn min_heap_interleaving() {
    let mut heap = MinHeap::new();
    for value in [4, 2, 9, 11] {
        heap.add(value);
    }
    assert_eq!(heap.next(), Some(2));
    assert_eq!(heap.next(), Some(4));
    heap.add(1);
    assert_eq!(heap.next(), Some(1));
    assert_eq!(drain(&mut heap), vec![9, 11]);
}

#[test]
fn max_heap_interleaving() {
    let mut heap = MaxHeap::new();
    for value in [4, 2, 9, 11] {
        heap.add(value);
    }
    assert_eq!(heap.next(), Some(11));
    assert_eq!(heap.next(), Some(9));
    heap.add(1);
    assert_eq!(heap.next(), Some(4));
    assert_eq!(drain(&mut heap), vec![2, 1]);
}

#[test]
fn empty_heap_keeps_signalling_the_end() {
    let mut heap = MinHeap::new::<u8>();
    assert!(heap.is_empty());
    assert_eq!(heap.len(), 0);
    assert_eq!(heap.next(), None);
    assert_eq!(heap.next(), None);
    heap.add(7);
    assert!(!heap.is_empty());
    assert_eq!(heap.next(), Some(7));
    assert_eq!(heap.next(), None);
    assert_eq!(heap.next(), None);
    assert!(heap.is_empty());
}

#[test]
fn len_counts_additions_less_extractions() {
    let mut heap = Heap::new_min();
    let mut expected = 0;
    for round in 0..50u32 {
        heap.add((round * 37) % 11);
        expected += 1;
        assert_eq!(heap.len(), expected);
        if round % 3 == 0 {
            assert!(heap.next().is_some());
            expected -= 1;
            assert_eq!(heap.len(), expected);
        }
    }
    while heap.next().is_some() {
        expected -= 1;
        assert_eq!(heap.len(), expected);
    }
    assert_eq!(expected, 0);
    assert_eq!(heap.next(), None);
    assert_eq!(heap.len(), 0);
}

#[test]
fn round_trip_gives_back_every_element_in_order() {
    let values: Vec<i32> = (0..200).map(|i| (i * 7919) % 101 - 50).collect();
    let mut heap = Heap::new_max();
    for value in values.iter() {
        heap.add(*value);
    }
    assert_eq!(heap.len(), values.len());
    let out = drain(&mut heap);
    assert_eq!(out.len(), values.len());
    let mut sorted = values.clone();
    sorted.sort();
    sorted.reverse();
    assert_eq!(out, sorted);
}

#[test]
fn heap_of_equal_elements_gives_them_all() {
    let mut heap = MinHeap::new();
    for _ in 0..5 {
        heap.add(3);
    }
    assert_eq!(drain(&mut heap), vec![3, 3, 3, 3, 3]);
}

#[test]
fn heap_with_one_child_at_the_bottom() {
    let mut heap = MinHeap::new();
    heap.add(1);
    heap.add(5);
    heap.add(3);
    assert_eq!(heap.next(), Some(1));
    assert_eq!(heap.next(), Some(3));
    assert_eq!(heap.next(), Some(5));
}
