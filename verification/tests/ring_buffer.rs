use t2fanrd::ring_buffer::RingBuffer;

fn filled<const N: usize>(items: &[i32]) -> RingBuffer<i32, N> {
    let mut rb = RingBuffer::<i32, N>::new();
    for &i in items {
        rb.push_back(i);
    }
    rb
}

fn contents<const N: usize>(rb: &RingBuffer<i32, N>) -> Vec<i32> {
    rb.iter().copied().collect()
}

#[test]
fn new_buffer_is_empty() {
    let rb: RingBuffer<i32, 3> = RingBuffer::default();
    assert_eq!(rb.len(), 0);
    assert!(rb.is_empty());
    assert!(!rb.is_full());
    assert_eq!(rb.front(), None);
    assert_eq!(rb.back(), None);
    assert_eq!(RingBuffer::<i32, 3>::capacity(), 3);
}

#[test]
fn push_back_until_full_evicts_oldest() {
    let mut rb = RingBuffer::<i32, 3>::new();
    assert_eq!(rb.push_back(1), None);
    assert_eq!(rb.push_back(2), None);
    assert_eq!(rb.push_back(3), None);
    assert!(rb.is_full());
    assert_eq!(rb.push_back(4), Some(1));
    assert_eq!(contents(&rb), vec![2, 3, 4]);
    assert_eq!(rb.len(), 3);
}

#[test]
fn push_front_until_full_evicts_newest() {
    let mut rb = RingBuffer::<i32, 3>::new();
    assert_eq!(rb.push_front(1), None);
    assert_eq!(rb.push_front(2), None);
    assert_eq!(rb.push_front(3), None);
    assert_eq!(rb.push_front(4), Some(1));
    assert_eq!(contents(&rb), vec![4, 3, 2]);
}

#[test]
fn zero_capacity_hands_value_back() {
    let mut rb = RingBuffer::<i32, 0>::new();
    assert_eq!(rb.push_back(7), Some(7));
    assert_eq!(rb.push_front(8), Some(8));
    assert!(rb.is_empty());
    assert!(rb.is_full());
}

#[test]
fn pops_and_peeks() {
    let mut rb = filled::<4>(&[1, 2, 3]);
    assert_eq!(rb.front(), Some(&1));
    assert_eq!(rb.back(), Some(&3));
    assert_eq!(rb.get(1), Some(&2));
    assert_eq!(rb.get(3), None);
    assert_eq!(rb.pop_front(), Some(1));
    assert_eq!(rb.pop_back(), Some(3));
    assert_eq!(rb.pop_back(), Some(2));
    assert_eq!(rb.pop_back(), None);
    assert_eq!(rb.pop_front(), None);
}

#[test]
fn clear_empties() {
    let mut rb = filled::<4>(&[1, 2, 3]);
    rb.clear();
    assert!(rb.is_empty());
    assert_eq!(rb.push_back(5), None);
    assert_eq!(contents(&rb), vec![5]);
}

#[test]
fn push_back_then_pop_back_undoes_push() {
    let mut rb = filled::<4>(&[1, 2]);
    rb.push_back(9);
    assert_eq!(rb.pop_back(), Some(9));
    assert_eq!(contents(&rb), vec![1, 2]);
}

#[test]
fn push_front_then_pop_front_undoes_push() {
    let mut rb = filled::<4>(&[1, 2]);
    rb.push_front(9);
    assert_eq!(rb.pop_front(), Some(9));
    assert_eq!(contents(&rb), vec![1, 2]);
}

#[test]
fn full_push_back_keeps_every_item() {
    let mut rb = filled::<3>(&[1, 2, 3]);
    let evicted = rb.push_back(4).unwrap();
    let mut all = vec![evicted];
    all.extend(contents(&rb));
    assert_eq!(all, vec![1, 2, 3, 4]);
}

#[test]
fn keeps_latest_items() {
    let rb = filled::<3>(&[1, 2, 3, 4, 5, 6, 7]);
    assert_eq!(contents(&rb), vec![5, 6, 7]);
    let rb = filled::<5>(&[1, 2]);
    assert_eq!(contents(&rb), vec![1, 2]);
}

#[test]
fn into_iter_front_to_back() {
    let rb = filled::<3>(&[1, 2, 3, 4]);
    let items: Vec<i32> = rb.into_iter().collect();
    assert_eq!(items, vec![2, 3, 4]);
}

#[test]
fn clone_copies_items() {
    let rb = filled::<3>(&[1, 2]);
    let copy = rb.clone();
    assert_eq!(contents(&copy), vec![1, 2]);
}
