use kernel_sched::heap::{left_child_index, parent_index, right_child_index, Heap};

#[test]
fn test_binary_heap() {
    let mut heap: Heap<usize> = Heap::new();
    heap.push(3);
    heap.push(4);
    heap.push(1);
    heap.push(9);
    heap.push(2);
    assert_eq!(Some(1), heap.pop());
    assert_eq!(Some(2), heap.pop());
    assert_eq!(Some(3), heap.pop());
    assert_eq!(Some(4), heap.pop());
    assert_eq!(Some(9), heap.pop());
    assert_eq!(None, heap.pop());
}

#[test]
fn heap_peek_and_len() {
    let mut heap: Heap<usize> = Heap::new();
    assert_eq!(heap.peek(), None);
    heap.insert_vec(vec![5, 7, 5, 2]);
    assert_eq!(heap.len(), 4);
    assert_eq!(heap.peek(), Some(&2));
    assert_eq!(heap.pop(), Some(2));
    assert_eq!(heap.pop(), Some(5));
    assert_eq!(heap.pop(), Some(5));
    assert_eq!(heap.pop(), Some(7));
    assert_eq!(heap.len(), 0);
}

#[test]
fn heap_index_arithmetic() {
    assert_eq!(parent_index(0), None);
    assert_eq!(parent_index(5), Some(2));
    assert_eq!(parent_index(6), Some(2));
    assert_eq!(left_child_index(2), 5);
    assert_eq!(right_child_index(2), 6);
}
