use tunelock::ring::{SampleRing, RING_CAPACITY};

#[test]
fn ring_is_first_in_first_out() {
    let mut r: SampleRing<f32> = SampleRing::new(0.0);
    assert_eq!(r.available(), 0);
    assert!(r.try_push_slice(&[0.1, 0.2, 0.3]));
    assert_eq!(r.available(), 3);
    assert_eq!(r.pop(), Some(0.1));
    assert!(r.try_push_slice(&[0.4]));
    assert_eq!(r.pop(), Some(0.2));
    assert_eq!(r.pop(), Some(0.3));
    assert_eq!(r.pop(), Some(0.4));
    assert_eq!(r.available(), 0);
    // An empty ring gives nothing and stays empty.
    assert_eq!(r.pop(), None);
    assert_eq!(r.available(), 0);
}

#[test]
fn ring_wraps_around_its_buffer() {
    let mut r: SampleRing<u32> = SampleRing::new(0);
    let block: Vec<u32> = (0..1000).collect();
    let mut expected = 0u32;
    for _ in 0..40 {
        assert!(r.try_push_slice(&block));
        for _ in 0..1000 {
            assert_eq!(r.pop(), Some(expected % 1000));
            expected += 1;
        }
    }
    assert_eq!(r.available(), 0);
}

#[test]
fn blocks_that_do_not_fit_are_dropped() {
    let mut r: SampleRing<u8> = SampleRing::new(0);
    let almost = vec![1u8; RING_CAPACITY - 2];
    assert!(r.try_push_slice(&almost));
    assert_eq!(r.available(), RING_CAPACITY - 2);
    // Filling the last slot would make the ring read as empty: dropped.
    assert!(!r.try_push_slice(&[2, 3]));
    assert_eq!(r.available(), RING_CAPACITY - 2);
    assert!(r.try_push_slice(&[4]));
    assert_eq!(r.available(), RING_CAPACITY - 1);
    r.clear();
    assert!(r.try_push_slice(&[9]));
    assert_eq!(r.pop(), Some(9));
}
