//! The relay workers: what one step of a sender and of a receiver does
//! with its jitter buffer. The socket belongs to the caller: a sender is
//! handed the frame to send, a receiver hands in what its read returned.
//!
//! A connection carries one direction per buffer. A duplex connection runs
//! a sender and a receiver on one socket, each on a buffer of its own.

use vstd::prelude::*;
use crate::ring::{
    JitterBuffer, SampleConsumer, SampleProducer, after_pop, after_push, after_pushes,
    lemma_pushes, popped, push_accepts,
};
use crate::wire::{decode_sample, decoded, encode_sample, encoded};

verus! {

/// What a blocking read for one four-byte frame returned.
#[derive(Clone, Copy, Debug, PartialEq, Eq, Structural)]
pub enum ReadOutcome {
    /// The read returned this many bytes.
    Bytes(usize),
    /// The read failed.
    Failed,
}

/// What a receiver did with a read.
#[derive(Clone, Copy, Debug, PartialEq, Eq, Structural)]
pub enum Received {
    /// The frame was a sample, and the buffer took it.
    Stored,
    /// The frame was a sample, and the buffer was full: the sample was
    /// dropped.
    Overrun,
    /// The read failed or came short: the connection is closed and the
    /// worker stops.
    Closed,
}

/// Whether a read brought a whole frame.
pub open spec fn is_whole_frame(read: ReadOutcome) -> bool {
    read == ReadOutcome::Bytes(4)
}

/// The frame a sender puts on the wire after a pop that returned
/// `popped`: the sample's bytes, or nothing if there was no sample.
pub open spec fn frame_spec(popped: Option<u32>) -> Option<Seq<u8>> {
    match popped {
        Some(sample) => Some(encoded(sample)),
        None => None,
    }
}

/// The sample a read brought: the frame decoded if the read was whole,
/// nothing otherwise.
pub open spec fn sample_spec(frame: Seq<u8>, read: ReadOutcome) -> Option<u32> {
    if is_whole_frame(read) {
        Some(decoded(frame))
    } else {
        None
    }
}

/// The frame to send after a pop that returned `popped`.
pub fn frame_of(popped: Option<u32>) -> (frame: Option<[u8; 4]>)
    ensures
        frame is Some == popped is Some,
        frame matches Some(bytes) ==> frame_spec(popped) == Some(bytes@),
{
    match popped {
        Some(sample) => Some(encode_sample(sample)),
        None => None,
    }
}

/// The sample that a read brought, or `None` if the read was short or
/// failed and the connection is to be closed.
pub fn sample_of(frame: &[u8; 4], read: ReadOutcome) -> (sample: Option<u32>)
    ensures
        sample == sample_spec(frame@, read),
{
    match read {
        ReadOutcome::Bytes(n) => {
            if n == 4 {
                Some(decode_sample(frame))
            } else {
                None
            }
        },
        ReadOutcome::Failed => None,
    }
}

/// One step of a sender: takes the oldest sample from the buffer and
/// returns its frame to send. If the buffer is empty there is nothing to
/// send: no silence is made up for the network.
pub fn sender_step(buffer: &mut JitterBuffer) -> (frame: Option<[u8; 4]>)
    requires
        old(buffer).wf(),
    ensures
        final(buffer).wf(),
        final(buffer).capacity_spec() == old(buffer).capacity_spec(),
        final(buffer)@ == after_pop(old(buffer)@),
        frame is Some == popped(old(buffer)@) is Some,
        frame matches Some(bytes) ==> frame_spec(popped(old(buffer)@)) == Some(bytes@),
{
    frame_of(buffer.pop())
}

/// One step of a receiver. A read of exactly four bytes is a sample, which
/// is pushed into the buffer, or dropped if the buffer is full. Any other
/// read, short or failed, closes the connection: fewer than four bytes are
/// never taken for a sample, and the buffer is left as it was.
pub fn receiver_step(buffer: &mut JitterBuffer, frame: &[u8; 4], read: ReadOutcome) -> (outcome:
    Received)
    requires
        old(buffer).wf(),
    ensures
        final(buffer).wf(),
        final(buffer).capacity_spec() == old(buffer).capacity_spec(),
        is_whole_frame(read) ==> final(buffer)@ == after_push(
            old(buffer)@,
            old(buffer).capacity_spec(),
            decoded(frame@),
        ),
        is_whole_frame(read) && push_accepts(old(buffer)@, old(buffer).capacity_spec())
            ==> outcome == Received::Stored,
        is_whole_frame(read) && !push_accepts(old(buffer)@, old(buffer).capacity_spec())
            ==> outcome == Received::Overrun,
        !is_whole_frame(read) ==> outcome == Received::Closed && final(buffer)@ == old(buffer)@,
{
    match sample_of(frame, read) {
        Some(sample) => {
            if buffer.push(sample) {
                Received::Stored
            } else {
                Received::Overrun
            }
        },
        None => Received::Closed,
    }
}

/// One step of a sender that owns the consuming end of a split buffer:
/// the frame of the sample that a pop returned, or nothing to send. Where
/// the consumer knew of a sample, the frame is that of the first it knew.
pub fn send_next(consumer: &mut SampleConsumer) -> (frame: Option<[u8; 4]>)
    ensures
        old(consumer)@.len() > 0 ==> frame is Some && frame_spec(popped(old(consumer)@)) == Some(
            frame->Some_0@,
        ),
        frame is Some ==> after_pop(old(consumer)@).is_prefix_of(final(consumer)@),
        frame is None ==> final(consumer)@ == Seq::<u32>::empty(),
{
    frame_of(consumer.pop())
}

/// One step of a receiver that owns the producing end of a split buffer.
/// A whole frame is offered to the buffer, which takes it or, being full,
/// drops it. A sample that is stored is appended behind all that the
/// producer appended before. A short or failed read closes the connection
/// and offers nothing.
pub fn receive_into(producer: &mut SampleProducer, frame: &[u8; 4], read: ReadOutcome) -> (outcome:
    Received)
    ensures
        outcome == Received::Closed <==> !is_whole_frame(read),
        is_whole_frame(read) && old(producer).room() > 0 ==> outcome == Received::Stored,
        outcome == Received::Stored ==> final(producer).room() + 1 >= old(producer).room(),
        outcome == Received::Stored ==> final(producer).appended() == old(
            producer,
        ).appended().push(decoded(frame@)),
        outcome == Received::Overrun ==> final(producer).room() == 0,
        outcome == Received::Closed ==> final(producer).room() == old(producer).room(),
        outcome != Received::Stored ==> final(producer).appended() == old(producer).appended(),
{
    match sample_of(frame, read) {
        Some(sample) => {
            if producer.push(sample) {
                Received::Stored
            } else {
                Received::Overrun
            }
        },
        None => Received::Closed,
    }
}

/// A sample that a sender takes from its buffer reaches the receiver's
/// buffer unchanged: the receiver's buffer after the step is what a push
/// of that very sample would have made it.
pub proof fn lemma_relay_preserves_sample(sample: u32, held: Seq<u32>, capacity: nat)
    ensures
        after_push(held, capacity, decoded(encoded(sample))) == after_push(held, capacity, sample),
{
    crate::wire::lemma_decode_encode(sample);
}

/// Over a transport that delivers every frame in order, a receiver whose
/// buffer has room for a run of samples ends up holding them behind what
/// it held, in the order they were sent, with none dropped.
pub proof fn lemma_relay_reproduces_sequence(held: Seq<u32>, capacity: nat, samples: Seq<u32>)
    requires
        held.len() + samples.len() <= capacity,
    ensures
        after_pushes(held, capacity, samples.map_values(|s: u32| decoded(encoded(s)))) == held
            + samples,
{
    let arrived = samples.map_values(|s: u32| decoded(encoded(s)));
    assert forall|i: int| 0 <= i < samples.len() implies arrived[i] == samples[i] by {
        crate::wire::lemma_decode_encode(samples[i]);
    }
    assert(arrived =~= samples);
    lemma_pushes(held, capacity, samples);
    assert(samples.take(samples.len() as int) =~= samples);
}

} // verus!
