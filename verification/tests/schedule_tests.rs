use queue_sim::schedule::{bits_of_key, key_of_bits, TimeQueue, FIRST_ARRIVAL, NEVER};

#[test]
fn queue_hands_out_greatest() {
    let mut q = TimeQueue::new();
    assert_eq!(q.peek(), None);
    assert_eq!(q.pop(), None);
    q.push(3);
    q.push(7);
    q.push(5);
    q.push(7);
    assert_eq!(q.len(), 4);
    assert_eq!(q.peek(), Some(7));
    assert_eq!(q.pop(), Some(7));
    assert_eq!(q.peek(), Some(7));
    assert_eq!(q.pop(), Some(7));
    assert_eq!(q.pop(), Some(5));
    assert_eq!(q.pop(), Some(3));
    assert_eq!(q.pop(), None);
    assert_eq!(q.len(), 0);
}

#[test]
fn keys_of_known_times() {
    assert_eq!(NEVER, f32::INFINITY.to_bits() | 0x8000_0000);
    assert_eq!(FIRST_ARRIVAL, 0.00001f32.to_bits() | 0x8000_0000);
    assert!(FIRST_ARRIVAL < NEVER);
}

#[test]
fn queue_lists_its_times() {
    let mut q = TimeQueue::new();
    q.push(4);
    q.push(1);
    q.push(4);
    let mut v = q.to_vec();
    v.sort();
    assert_eq!(v, vec![1, 4, 4]);
    assert_eq!(q.len(), 3);
}

#[test]
fn keys_order_as_times() {
    let times = [f32::NEG_INFINITY, -3.5, -1.0, -0.25, 0.0, 1.0e-7, 0.5, 2.0, 1.0e30, f32::INFINITY];
    for w in times.windows(2) {
        assert!(key_of_bits(w[0].to_bits()) < key_of_bits(w[1].to_bits()));
    }
    for t in times {
        assert_eq!(f32::from_bits(bits_of_key(key_of_bits(t.to_bits()))), t);
    }
    assert_eq!(key_of_bits(f32::INFINITY.to_bits()), NEVER);
    assert_eq!(key_of_bits(0.00001f32.to_bits()), FIRST_ARRIVAL);
    assert!(key_of_bits((-0.0f32).to_bits()) < key_of_bits(0.0f32.to_bits()));
}
