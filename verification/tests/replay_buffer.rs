use aixker_rlt::ReplayBuffer;

#[test]
fn new_buffer_is_empty() {
    let buffer: ReplayBuffer<u32> = ReplayBuffer::new(4);
    assert_eq!(buffer.len(), 0);
    assert!(buffer.sample(0).is_empty());
}

#[test]
fn push_grows_until_capacity() {
    let mut buffer = ReplayBuffer::new(3);
    buffer.push(1u32);
    buffer.push(2);
    assert_eq!(buffer.len(), 2);
    buffer.push(3);
    buffer.push(4);
    buffer.push(5);
    assert_eq!(buffer.len(), 3);
}

#[test]
fn full_buffer_drops_the_oldest() {
    let mut buffer = ReplayBuffer::new(1);
    buffer.push(String::from("old"));
    buffer.push(String::from("new"));
    assert_eq!(buffer.len(), 1);
    let batch = buffer.sample(5);
    assert_eq!(batch.len(), 5);
    assert!(batch.iter().all(|s| s == "new"));
}

#[test]
fn ring_keeps_the_most_recent_entries() {
    let mut buffer = ReplayBuffer::new(3);
    for i in 0..10u32 {
        buffer.push(i);
    }
    let batch = buffer.sample(200);
    assert_eq!(batch.len(), 200);
    assert!(batch.iter().all(|x| (7..10).contains(x)));
}

#[test]
fn sample_draws_stored_entries() {
    let mut buffer = ReplayBuffer::new(8);
    buffer.push(vec![1u8]);
    buffer.push(vec![2u8]);
    let batch = buffer.sample(50);
    assert_eq!(batch.len(), 50);
    assert!(batch.iter().all(|v| *v == vec![1u8] || *v == vec![2u8]));
}

#[test]
fn sample_at_picks_slots_in_order() {
    let mut buffer = ReplayBuffer::new(3);
    buffer.push('a');
    buffer.push('b');
    buffer.push('c');
    assert_eq!(buffer.sample_at(&vec![2, 0, 0]), vec!['c', 'a', 'a']);
    buffer.push('d');
    assert_eq!(buffer.sample_at(&vec![0, 1, 2]), vec!['d', 'b', 'c']);
}
