use binary_heap::{Heap, MaxHeap, MinHeap};

#[test]
fn test_empty_heap() {
    let mut heap = MaxHeap::new::<i32>();
    assert_eq!(heap.next(), None);
}

#[test]
fn test_min_heap() {
    let mut heap = MinHeap::new();
    heap.add(4);
    heap.add(2);
    heap.add(9);
    heap.add(11);
    assert_eq!(heap.len(), 4);
    assert_eq!(heap.next(), Some(2));
    assert_eq!(heap.next(), Some(4));
    assert_eq!(heap.next(), Some(9));
    heap.add(1);
    assert_eq!(heap.next(), Some(1));
}

#[test]
fn test_max_heap() {
    let mut heap = MaxHeap::new();
    heap.add(4);
    heap.add(2);
    heap.add(9);
    heap.add(11);
    assert_eq!(heap.len(), 4);
    assert_eq!(heap.next(), Some(11));
    assert_eq!(heap.next(), Some(9));
    assert_eq!(heap.next(), Some(4));
    heap.add(1);
    assert_eq!(heap.next(), Some(2));
}

fn drain<T: Default, F: Fn(&T, &T) -> bool>(heap: &mut Heap<T, F>) -> Vec<T> {
    let mut out = Vec::new();
    while let Some(x) = heap.next() {
        out.push(x);
    }
    out
}

#[test]
fn new_heap_is_empty() {
    let heap = Heap::new(|a: &u8, b: &u8| a < b);
    assert_eq!(heap.len(), 0);
    assert!(heap.is_empty());
}

#[test]
fn empty_extraction_leaves_len_at_zero() {
    let mut heap = MinHeap::new::<u64>();
    assert_eq!(heap.next(), None);
    assert_eq!(heap.len(), 0);
    assert!(heap.is_empty());
}

#[test]
fn empty_heap_takes_elements_after_a_failed_extraction() {
    let mut heap = MaxHeap::new::<i64>();
    assert_eq!(heap.next(), None);
    heap.add(-3);
    heap.add(7);
    assert_eq!(heap.len(), 2);
    assert_eq!(heap.next(), Some(7));
    assert_eq!(heap.next(), Some(-3));
    assert_eq!(heap.next(), None);
}

#[test]
fn len_counts_additions_less_extractions() {
    let mut heap = MinHeap::new::<u32>();
    assert_eq!(heap.len(), 0);
    heap.add(5);
    assert_eq!(heap.len(), 1);
    assert!(!heap.is_empty());
    heap.add(3);
    heap.add(8);
    assert_eq!(heap.len(), 3);
    assert_eq!(heap.next(), Some(3));
    assert_eq!(heap.len(), 2);
    heap.add(1);
    assert_eq!(heap.len(), 3);
    assert_eq!(heap.next(), Some(1));
    assert_eq!(heap.next(), Some(5));
    assert_eq!(heap.next(), Some(8));
    assert_eq!(heap.len(), 0);
    assert_eq!(heap.next(), None);
    assert_eq!(heap.len(), 0);
    assert!(heap.is_empty());
}

#[test]
fn min_heap_drains_in_ascending_order() {
    let mut heap = MinHeap::new::<i32>();
    for x in [7, -2, 7, 0, 13, 5, -2, 41, 3, 8, 1, 6] {
        heap.add(x);
    }
    assert_eq!(heap.len(), 12);
    assert_eq!(drain(&mut heap), vec![-2, -2, 0, 1, 3, 5, 6, 7, 7, 8, 13, 41]);
    assert!(heap.is_empty());
}

#[test]
fn max_heap_drains_in_descending_order() {
    let mut heap = MaxHeap::new::<i32>();
    for x in [7, -2, 7, 0, 13, 5, -2, 41, 3, 8, 1, 6] {
        heap.add(x);
    }
    assert_eq!(heap.len(), 12);
    assert_eq!(drain(&mut heap), vec![41, 13, 8, 7, 7, 6, 5, 3, 1, 0, -2, -2]);
    assert!(heap.is_empty());
}

#[test]
fn ascending_input_comes_out_of_a_max_heap_reversed() {
    let mut heap = MaxHeap::new::<u16>();
    for x in 1..=31u16 {
        heap.add(x);
    }
    let expected: Vec<u16> = (1..=31u16).rev().collect();
    assert_eq!(drain(&mut heap), expected);
}

#[test]
fn descending_input_comes_out_of_a_min_heap_reversed() {
    let mut heap = MinHeap::new::<u16>();
    for x in (1..=31u16).rev() {
        heap.add(x);
    }
    let expected: Vec<u16> = (1..=31u16).collect();
    assert_eq!(drain(&mut heap), expected);
}

#[test]
fn order_holds_through_mixed_additions_and_extractions() {
    let mut heap = MinHeap::new::<i32>();
    heap.add(10);
    heap.add(4);
    heap.add(15);
    assert_eq!(heap.next(), Some(4));
    heap.add(2);
    heap.add(20);
    heap.add(12);
    assert_eq!(heap.next(), Some(2));
    assert_eq!(heap.next(), Some(10));
    heap.add(11);
    assert_eq!(heap.len(), 4);
    assert_eq!(drain(&mut heap), vec![11, 12, 15, 20]);
}

#[test]
fn drained_heap_keeps_yielding_none() {
    let mut heap = MinHeap::new::<i32>();
    heap.add(1);
    heap.add(2);
    assert_eq!(heap.next(), Some(1));
    assert_eq!(heap.next(), Some(2));
    for _ in 0..5 {
        assert_eq!(heap.next(), None);
        assert_eq!(heap.len(), 0);
    }
}

#[test]
fn single_element_goes_in_and_out() {
    let mut heap = MaxHeap::new::<String>();
    heap.add(String::from("only"));
    assert_eq!(heap.len(), 1);
    assert_eq!(heap.next(), Some(String::from("only")));
    assert_eq!(heap.next(), None);
}

#[test]
fn new_min_orders_like_min_heap() {
    let mut heap = Heap::new_min();
    heap.add(4);
    heap.add(2);
    heap.add(9);
    heap.add(11);
    assert_eq!(heap.len(), 4);
    assert_eq!(drain(&mut heap), vec![2, 4, 9, 11]);
}

#[test]
fn new_max_orders_like_max_heap() {
    let mut heap = Heap::new_max();
    heap.add(4);
    heap.add(2);
    heap.add(9);
    heap.add(11);
    assert_eq!(heap.len(), 4);
    assert_eq!(drain(&mut heap), vec![11, 9, 4, 2]);
}

#[test]
fn comparator_decides_the_order() {
    let mut heap = Heap::new(|a: &i32, b: &i32| a.abs() < b.abs());
    for x in [-7, 3, -1, 12, -5] {
        heap.add(x);
    }
    assert_eq!(drain(&mut heap), vec![-1, 3, -5, -7, 12]);
}

#[test]
fn function_item_serves_as_comparator() {
    fn longer(a: &String, b: &String) -> bool {
        a.len() > b.len()
    }
    let mut heap = Heap::new(longer);
    heap.add(String::from("bb"));
    heap.add(String::from("dddd"));
    heap.add(String::from("a"));
    heap.add(String::from("ccc"));
    assert_eq!(
        drain(&mut heap),
        vec![
            String::from("dddd"),
            String::from("ccc"),
            String::from("bb"),
            String::from("a"),
        ]
    );
}

#[test]
fn tied_children_give_way_to_the_left_one() {
    let mut heap = Heap::new(|a: &(u8, char), b: &(u8, char)| a.0 < b.0);
    heap.add((1, 'a'));
    heap.add((2, 'b'));
    heap.add((2, 'c'));
    heap.add((3, 'd'));
    assert_eq!(heap.next(), Some((1, 'a')));
    assert_eq!(heap.next(), Some((2, 'b')));
    assert_eq!(heap.next(), Some((2, 'c')));
    assert_eq!(heap.next(), Some((3, 'd')));
    assert_eq!(heap.next(), None);
}

#[test]
fn right_child_is_taken_when_it_outranks_the_left() {
    let mut heap = Heap::new(|a: &(u8, char), b: &(u8, char)| a.0 < b.0);
    heap.add((1, 'a'));
    heap.add((3, 'b'));
    heap.add((2, 'c'));
    heap.add((4, 'd'));
    assert_eq!(heap.next(), Some((1, 'a')));
    assert_eq!(heap.next(), Some((2, 'c')));
    assert_eq!(heap.next(), Some((3, 'b')));
    assert_eq!(heap.next(), Some((4, 'd')));
}

#[test]
fn new_element_stops_under_a_parent_that_ties_with_it() {
    let mut heap = Heap::new(|a: &(u8, char), b: &(u8, char)| a.0 > b.0);
    heap.add((5, 'x'));
    heap.add((5, 'y'));
    heap.add((5, 'z'));
    assert_eq!(heap.next(), Some((5, 'x')));
    assert_eq!(heap.len(), 2);
}
