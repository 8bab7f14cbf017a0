use audio_relay::ring::{BufferError, JitterBuffer, SILENCE};

#[test]
fn pushes_then_pops_return_the_values_in_order() {
    let mut buffer = JitterBuffer::with_capacity(8).unwrap();
    let values: Vec<u32> = vec![11, 22, 33, 44, 55, 66, 77, 88];
    for v in &values {
        assert!(buffer.push(*v));
    }
    let mut out = Vec::new();
    for _ in 0..values.len() {
        out.push(buffer.pop().unwrap());
    }
    assert_eq!(out, values);
    assert!(buffer.is_empty());
}

#[test]
fn fewer_pushes_than_capacity_round_trip() {
    let mut buffer = JitterBuffer::with_capacity(5).unwrap();
    assert!(buffer.push(0x3F80_0000));
    assert!(buffer.push(0xBF80_0000));
    assert_eq!(buffer.len(), 2);
    assert_eq!(buffer.pop(), Some(0x3F80_0000));
    assert_eq!(buffer.pop(), Some(0xBF80_0000));
    assert_eq!(buffer.pop(), None);
}

#[test]
fn order_survives_wrapping_around_the_storage() {
    let mut buffer = JitterBuffer::with_capacity(3).unwrap();
    let mut next_in: u32 = 1;
    let mut next_out: u32 = 1;
    for _ in 0..10 {
        assert!(buffer.push(next_in));
        next_in += 1;
        assert!(buffer.push(next_in));
        next_in += 1;
        assert_eq!(buffer.pop(), Some(next_out));
        next_out += 1;
        assert_eq!(buffer.pop(), Some(next_out));
        next_out += 1;
    }
    assert!(buffer.is_empty());
}

#[test]
fn primed_buffer_gives_the_latency_window_of_silence_first() {
    let latency = 6;
    let mut buffer = JitterBuffer::primed(latency).unwrap();
    assert_eq!(buffer.capacity(), 12);
    assert_eq!(buffer.len(), 6);
    assert!(buffer.push(0x4000_0000));
    assert!(buffer.push(0x4040_0000));
    for _ in 0..latency {
        let popped = buffer.pop();
        assert_eq!(popped, Some(SILENCE));
        assert_eq!(f32::from_bits(popped.unwrap()), 0.0);
    }
    assert_eq!(buffer.pop(), Some(0x4000_0000));
    assert_eq!(buffer.pop(), Some(0x4040_0000));
    assert_eq!(buffer.pop(), None);
}

#[test]
fn silence_is_positive_zero() {
    assert_eq!(SILENCE, 0.0f32.to_bits());
}

#[test]
fn push_into_full_buffer_is_rejected_and_contents_stay() {
    let mut buffer = JitterBuffer::with_capacity(4).unwrap();
    for v in [1u32, 2, 3, 4] {
        assert!(buffer.push(v));
    }
    assert!(buffer.is_full());
    let before = buffer.snapshot();
    assert_eq!(before, vec![1, 2, 3, 4]);
    assert!(!buffer.push(99));
    assert!(!buffer.push(100));
    assert_eq!(buffer.snapshot(), before);
    assert_eq!(buffer.len(), 4);
    assert_eq!(buffer.pop(), Some(1));
    assert_eq!(buffer.pop(), Some(2));
    assert_eq!(buffer.pop(), Some(3));
    assert_eq!(buffer.pop(), Some(4));
    assert_eq!(buffer.pop(), None);
}

#[test]
fn pop_from_empty_buffer_is_none_every_time() {
    let mut buffer = JitterBuffer::with_capacity(2).unwrap();
    for _ in 0..1000 {
        assert_eq!(buffer.pop(), None);
    }
    assert!(buffer.is_empty());
    assert_eq!(buffer.len(), 0);
    assert!(buffer.push(5));
    assert_eq!(buffer.pop(), Some(5));
    for _ in 0..1000 {
        assert_eq!(buffer.pop(), None);
    }
}

#[test]
fn zero_capacity_is_refused() {
    assert_eq!(JitterBuffer::with_capacity(0).err(), Some(BufferError::ZeroCapacity));
    assert_eq!(JitterBuffer::primed(0).err(), Some(BufferError::ZeroCapacity));
}

#[test]
fn latency_window_too_large_to_double_is_refused() {
    assert_eq!(JitterBuffer::primed(usize::MAX).err(), Some(BufferError::CapacityOverflow));
    assert_eq!(
        JitterBuffer::primed(usize::MAX / 2 + 1).err(),
        Some(BufferError::CapacityOverflow)
    );
}

#[test]
fn storage_that_cannot_be_allocated_is_refused() {
    assert_eq!(
        JitterBuffer::with_capacity(usize::MAX).err(),
        Some(BufferError::AllocationFailed)
    );
}

#[test]
fn capacity_is_what_was_asked_for_and_stays() {
    let mut buffer = JitterBuffer::with_capacity(7).unwrap();
    assert_eq!(buffer.capacity(), 7);
    buffer.push(1);
    buffer.pop();
    buffer.push(2);
    assert_eq!(buffer.capacity(), 7);
    assert_eq!(buffer.len(), 1);
}

#[test]
fn snapshot_lists_oldest_first_and_removes_nothing() {
    let mut buffer = JitterBuffer::with_capacity(3).unwrap();
    buffer.push(10);
    buffer.push(20);
    buffer.pop();
    buffer.push(30);
    buffer.push(40);
    assert_eq!(buffer.snapshot(), vec![20, 30, 40]);
    assert_eq!(buffer.len(), 3);
    assert_eq!(buffer.pop(), Some(20));
}

#[test]
fn fill_silence_stops_when_the_buffer_is_full() {
    let mut buffer = JitterBuffer::with_capacity(4).unwrap();
    buffer.push(9);
    assert_eq!(buffer.fill_silence(2), 2);
    assert_eq!(buffer.snapshot(), vec![9, 0, 0]);
    assert_eq!(buffer.fill_silence(5), 1);
    assert_eq!(buffer.snapshot(), vec![9, 0, 0, 0]);
    assert_eq!(buffer.fill_silence(5), 0);
    assert_eq!(buffer.fill_silence(0), 0);
}

#[test]
fn push_block_appends_what_fits_and_reports_overrun() {
    let mut buffer = JitterBuffer::with_capacity(5).unwrap();
    assert!(!buffer.push_block(&[1, 2, 3]));
    assert_eq!(buffer.snapshot(), vec![1, 2, 3]);
    assert!(buffer.push_block(&[4, 5, 6, 7]));
    assert_eq!(buffer.snapshot(), vec![1, 2, 3, 4, 5]);
    assert!(!buffer.push_block(&[]));
    assert!(buffer.push_block(&[8]));
    assert_eq!(buffer.snapshot(), vec![1, 2, 3, 4, 5]);
}

#[test]
fn push_block_that_fills_exactly_is_no_overrun() {
    let mut buffer = JitterBuffer::with_capacity(3).unwrap();
    assert!(!buffer.push_block(&[1, 2, 3]));
    assert!(buffer.is_full());
}

#[test]
fn fill_block_pads_with_silence_and_reports_underrun() {
    let mut buffer = JitterBuffer::with_capacity(8).unwrap();
    buffer.push_block(&[7, 8, 9]);
    let mut block = vec![0xFFFF_FFFFu32; 2];
    assert!(!buffer.fill_block(&mut block));
    assert_eq!(block, vec![7, 8]);
    let mut block = vec![0xFFFF_FFFFu32; 4];
    assert!(buffer.fill_block(&mut block));
    assert_eq!(block, vec![9, SILENCE, SILENCE, SILENCE]);
    assert!(buffer.is_empty());
    let mut block: Vec<u32> = Vec::new();
    assert!(!buffer.fill_block(&mut block));
    assert!(block.is_empty());
}

#[test]
fn fill_block_that_empties_exactly_is_no_underrun() {
    let mut buffer = JitterBuffer::with_capacity(4).unwrap();
    buffer.push_block(&[1, 2]);
    let mut block = vec![5u32; 2];
    assert!(!buffer.fill_block(&mut block));
    assert_eq!(block, vec![1, 2]);
    assert!(buffer.is_empty());
}
