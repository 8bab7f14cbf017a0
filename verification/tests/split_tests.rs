use audio_relay::relay::{receive_into, send_next, ReadOutcome, Received};
use audio_relay::ring::{sample_or_silence, JitterBuffer, SILENCE};

#[test]
fn split_ends_carry_the_primed_silence_and_then_the_samples() {
    let (mut producer, mut consumer) = JitterBuffer::primed(3).unwrap().split();
    assert!(producer.push(41));
    assert!(producer.push(42));
    assert_eq!(consumer.pop(), Some(SILENCE));
    assert_eq!(consumer.pop(), Some(SILENCE));
    assert_eq!(consumer.pop(), Some(SILENCE));
    assert_eq!(consumer.pop(), Some(41));
    assert_eq!(consumer.pop(), Some(42));
    assert_eq!(consumer.pop(), None);
    assert_eq!(consumer.pop(), None);
}

#[test]
fn producer_drops_what_does_not_fit() {
    let (mut producer, mut consumer) = JitterBuffer::with_capacity(3).unwrap().split();
    assert_eq!(producer.push_block(&[1, 2]), 0);
    assert_eq!(producer.push_block(&[3, 4, 5]), 2);
    assert!(!producer.push(6));
    assert_eq!(consumer.pop(), Some(1));
    assert!(producer.push(7));
    assert_eq!(consumer.pop(), Some(2));
    assert_eq!(consumer.pop(), Some(3));
    assert_eq!(consumer.pop(), Some(7));
    assert_eq!(consumer.pop(), None);
}

#[test]
fn consumer_fills_a_block_and_counts_the_missing_slots() {
    let (mut producer, mut consumer) = JitterBuffer::with_capacity(8).unwrap().split();
    assert_eq!(producer.push_block(&[5, 6, 7]), 0);
    let mut block = vec![9u32; 2];
    assert_eq!(consumer.fill_block(&mut block), 0);
    assert_eq!(block, vec![5, 6]);
    let mut block = vec![9u32; 3];
    assert_eq!(consumer.fill_block(&mut block), 2);
    assert_eq!(block, vec![7, SILENCE, SILENCE]);
    let mut block = vec![9u32; 3];
    assert_eq!(consumer.fill_block(&mut block), 3);
    assert_eq!(block, vec![SILENCE, SILENCE, SILENCE]);
}

#[test]
fn a_slot_without_a_sample_plays_silence() {
    assert_eq!(sample_or_silence(Some(17)), 17);
    assert_eq!(sample_or_silence(Some(0x8000_0000)), 0x8000_0000);
    assert_eq!(sample_or_silence(None), SILENCE);
}

#[test]
fn relay_over_split_ends_keeps_order() {
    let (mut sending_in, mut sending_out) = JitterBuffer::with_capacity(64).unwrap().split();
    let (mut receiving_in, mut receiving_out) = JitterBuffer::with_capacity(2048).unwrap().split();
    let total: u32 = 1000;

    let mut next: u32 = 1;
    let mut relayed = 0;
    while relayed < total {
        while next <= total && sending_in.push(next) {
            next += 1;
        }
        while let Some(frame) = send_next(&mut sending_out) {
            assert_eq!(
                receive_into(&mut receiving_in, &frame, ReadOutcome::Bytes(4)),
                Received::Stored
            );
            relayed += 1;
        }
    }

    for expected in 1..=total {
        assert_eq!(receiving_out.pop(), Some(expected));
    }
    assert_eq!(receiving_out.pop(), None);
}

#[test]
fn short_or_failed_read_offers_nothing_to_the_producer() {
    let (mut producer, mut consumer) = JitterBuffer::with_capacity(4).unwrap().split();
    let frame = [0x3F, 0x80, 0, 0];
    assert_eq!(receive_into(&mut producer, &frame, ReadOutcome::Bytes(3)), Received::Closed);
    assert_eq!(receive_into(&mut producer, &frame, ReadOutcome::Bytes(0)), Received::Closed);
    assert_eq!(receive_into(&mut producer, &frame, ReadOutcome::Failed), Received::Closed);
    assert_eq!(consumer.pop(), None);
    assert_eq!(receive_into(&mut producer, &frame, ReadOutcome::Bytes(4)), Received::Stored);
    assert_eq!(consumer.pop(), Some(0x3F80_0000));
}

#[test]
fn full_buffer_reports_overrun_to_the_receiver() {
    let (mut producer, mut consumer) = JitterBuffer::with_capacity(1).unwrap().split();
    assert_eq!(receive_into(&mut producer, &[0, 0, 0, 1], ReadOutcome::Bytes(4)), Received::Stored);
    assert_eq!(receive_into(&mut producer, &[0, 0, 0, 2], ReadOutcome::Bytes(4)), Received::Overrun);
    assert_eq!(consumer.pop(), Some(1));
    assert_eq!(consumer.pop(), None);
}

#[test]
fn taken_samples_of_a_block_keep_the_order_of_the_block() {
    let (mut producer, mut consumer) = JitterBuffer::with_capacity(4).unwrap().split();
    assert_eq!(producer.push_block(&[1, 2, 3, 4, 5, 6]), 2);
    assert_eq!(consumer.pop(), Some(1));
    assert_eq!(consumer.pop(), Some(2));
    assert_eq!(producer.push_block(&[7, 8, 9]), 1);
    let mut rest = Vec::new();
    while let Some(sample) = consumer.pop() {
        rest.push(sample);
    }
    assert_eq!(rest, vec![3, 4, 7, 8]);
}

#[test]
fn dropped_sample_leaves_no_trace() {
    let (mut producer, mut consumer) = JitterBuffer::with_capacity(2).unwrap().split();
    assert!(producer.push(10));
    assert!(producer.push(20));
    assert!(!producer.push(30));
    assert_eq!(consumer.pop(), Some(10));
    assert!(producer.push(40));
    assert_eq!(consumer.pop(), Some(20));
    assert_eq!(consumer.pop(), Some(40));
    assert_eq!(consumer.pop(), None);
}
