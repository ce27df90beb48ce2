use senso::ring_buffer::RingBuf;

fn contents(ring: &RingBuf<i32>) -> Vec<i32> {
    ring.get().iter().copied().collect()
}

#[test]
fn test_ring_buf_from_vec() {
    let items = vec![1, 2, 3, 4, 5, 6, 7, 8, 9];
    let mut ring_buf = RingBuf::from(items);

    ring_buf.put(10);
    ring_buf.put(11);
    ring_buf.put(12);
    ring_buf.put(13);
    ring_buf.put(14);
    ring_buf.put(15);

    assert!(ring_buf.len() == 9);
    assert!(ring_buf.get().iter().next() == Some(&7));
    assert!(ring_buf.get().iter().last() == Some(&15));
}

#[test]
fn test_ring_buf_new() {
    let items = vec![0, 1, 2, 3, 4, 5];
    let mut ring_buf = RingBuf::new(2);
    for item in items {
        ring_buf.put(item);
    }

    assert!(ring_buf.len() == 2);
    assert!(ring_buf.get().iter().last() == Some(&5));
}

#[test]
fn from_vec_keeps_order_and_is_full() {
    let mut ring = RingBuf::from(vec![4, 5, 6]);
    assert_eq!(contents(&ring), vec![4, 5, 6]);
    assert_eq!(ring.len(), 3);
    ring.put(7);
    assert_eq!(contents(&ring), vec![5, 6, 7]);
}

#[test]
fn from_empty_vec_stays_empty() {
    let mut ring: RingBuf<i32> = RingBuf::from(Vec::new());
    ring.put(1);
    ring.put(2);
    assert_eq!(ring.len(), 0);
    assert!(ring.get().is_empty());
}

#[test]
fn new_buffer_is_empty() {
    let ring: RingBuf<i32> = RingBuf::new(4);
    assert_eq!(ring.len(), 0);
    assert!(ring.get().is_empty());
}

#[test]
fn capacity_three_keeps_last_three_of_five() {
    let mut ring = RingBuf::new(3);
    for value in [1, 2, 3, 4, 5] {
        ring.put(value);
    }
    assert_eq!(contents(&ring), vec![3, 4, 5]);
    assert_eq!(ring.len(), 3);
}

#[test]
fn put_below_capacity_appends() {
    let mut ring = RingBuf::new(3);
    ring.put(10);
    assert_eq!(contents(&ring), vec![10]);
    ring.put(20);
    assert_eq!(contents(&ring), vec![10, 20]);
    assert_eq!(ring.len(), 2);
}

#[test]
fn put_when_full_evicts_only_the_oldest() {
    let mut ring = RingBuf::new(4);
    for value in [1, 2, 3, 4] {
        ring.put(value);
    }
    assert_eq!(contents(&ring), vec![1, 2, 3, 4]);
    ring.put(5);
    assert_eq!(contents(&ring), vec![2, 3, 4, 5]);
    ring.put(6);
    assert_eq!(contents(&ring), vec![3, 4, 5, 6]);
}

#[test]
fn capacity_one_holds_the_newest() {
    let mut ring = RingBuf::new(1);
    ring.put(7);
    assert_eq!(contents(&ring), vec![7]);
    ring.put(8);
    assert_eq!(contents(&ring), vec![8]);
    assert_eq!(ring.len(), 1);
}

#[test]
fn capacity_zero_stays_empty() {
    let mut ring = RingBuf::new(0);
    ring.put(1);
    ring.put(2);
    assert_eq!(ring.len(), 0);
    assert!(ring.get().is_empty());
}

#[test]
fn length_is_min_of_pushes_and_capacity() {
    for capacity in 1..6usize {
        for pushes in 0..12usize {
            let mut ring = RingBuf::new(capacity);
            let pushed: Vec<i32> = (0..pushes as i32).collect();
            for value in pushed.iter() {
                ring.put(*value);
            }
            let kept = pushes.min(capacity);
            assert_eq!(ring.len(), kept);
            assert_eq!(contents(&ring), pushed[pushes - kept..].to_vec());
        }
    }
}

#[test]
fn holds_values_that_cannot_be_copied() {
    let mut ring = RingBuf::new(2);
    ring.put(String::from("a"));
    ring.put(String::from("b"));
    ring.put(String::from("c"));
    let held: Vec<&str> = ring.get().iter().map(|s| s.as_str()).collect();
    assert_eq!(held, vec!["b", "c"]);
}
