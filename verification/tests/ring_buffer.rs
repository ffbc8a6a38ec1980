use voca::audio::ring_buffer::RingBuffer;

#[test]
fn push_and_drain() {
    let mut rb = RingBuffer::new(4);
    rb.push(1.0);
    rb.push(2.0);
    rb.push(3.0);
    let out = rb.drain();
    assert_eq!(out, vec![1.0, 2.0, 3.0]);
    assert!(rb.is_empty());
}

#[test]
fn overwrites_oldest_when_full() {
    let mut rb = RingBuffer::new(3);
    rb.push(1.0);
    rb.push(2.0);
    rb.push(3.0);
    rb.push(4.0); // overwrites 1.0
    let out = rb.drain();
    assert_eq!(out, vec![2.0, 3.0, 4.0]);
}

#[test]
fn keeps_the_latest_capacity_samples() {
    let mut rb = RingBuffer::new(3);
    for i in 0..10u32 {
        rb.push(i);
    }
    assert_eq!(rb.len(), 3);
    assert_eq!(rb.drain(), vec![7, 8, 9]);
}

#[test]
fn usable_again_after_drain() {
    let mut rb = RingBuffer::new(2);
    rb.push(1i16);
    rb.push(2);
    rb.push(3);
    assert_eq!(rb.drain(), vec![2, 3]);
    assert_eq!(rb.len(), 0);
    rb.push(9);
    assert_eq!(rb.len(), 1);
    assert!(!rb.is_empty());
    assert_eq!(rb.drain(), vec![9]);
}

#[test]
fn empty_drain_is_empty() {
    let mut rb: RingBuffer<f32> = RingBuffer::new(0);
    assert!(rb.drain().is_empty());
}
