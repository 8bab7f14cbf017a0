//! The jitter buffer: a fixed-capacity first-in first-out buffer of samples
//! that absorbs the difference in timing between the network and the audio
//! device.
//!
//! The storage is a `ringbuf::HeapRb`. What it holds is described by
//! `ring_contents`, and every operation of the buffer is stated over that
//! sequence: a push appends at the back unless the buffer is full, a pop
//! removes from the front unless it is empty, and neither ever waits.

use vstd::prelude::*;

verus! {

/// The bit pattern of the silence sample, amplitude `0.0`.
pub const SILENCE: u32 = 0;

/// Why a buffer could not be made.
#[derive(Clone, Copy, Debug, PartialEq, Eq, Structural)]
pub enum BufferError {
    /// The requested capacity is zero.
    ZeroCapacity,
    /// Twice the latency window does not fit in `usize`.
    CapacityOverflow,
    /// The storage could not be allocated.
    AllocationFailed,
}

/// A heap-allocated `ringbuf::HeapRb` of sample bit patterns. Its contents
/// are known only through `ring_contents` and `ring_capacity`.
#[verifier::external_body]
pub struct SampleRing {
    inner: ringbuf::HeapRb<u32>,
}

/// The samples that a ring holds, oldest first.
pub uninterp spec fn ring_contents(ring: SampleRing) -> Seq<u32>;

/// The number of samples that a ring was made to hold.
pub uninterp spec fn ring_capacity(ring: SampleRing) -> nat;

/// `ringbuf::HeapRb::try_new`: a ring made for `capacity` items starts out
/// empty. The allocation may fail, in which case there is no ring. A
/// capacity of zero makes the call panic and is excluded.
#[verifier::external_body]
fn ring_try_new(capacity: usize) -> (made: Option<SampleRing>)
    requires
        capacity > 0,
    ensures
        made matches Some(ring) ==> ring_contents(ring) == Seq::<u32>::empty() && ring_capacity(
            ring,
        ) == capacity,
{
    match ringbuf::HeapRb::<u32>::try_new(capacity) {
        Ok(inner) => Some(SampleRing { inner }),
        Err(_) => None,
    }
}

/// `ringbuf::Rb::push`: below capacity the item is appended behind the
/// others; at capacity the ring is left as it was and the item comes back.
#[verifier::external_body]
fn ring_push(ring: &mut SampleRing, sample: u32) -> (pushed: Result<(), u32>)
    ensures
        ring_capacity(*final(ring)) == ring_capacity(*old(ring)),
        ring_contents(*old(ring)).len() < ring_capacity(*old(ring)) ==> pushed is Ok
            && ring_contents(*final(ring)) == ring_contents(*old(ring)).push(sample),
        ring_contents(*old(ring)).len() >= ring_capacity(*old(ring)) ==> pushed is Err
            && pushed->Err_0 == sample && ring_contents(*final(ring)) == ring_contents(*old(ring)),
{
    ringbuf::Rb::push(&mut ring.inner, sample)
}

/// `ringbuf::Rb::pop`: the oldest item leaves the ring and is returned; an
/// empty ring stays empty and gives nothing.
#[verifier::external_body]
fn ring_pop(ring: &mut SampleRing) -> (popped: Option<u32>)
    ensures
        ring_capacity(*final(ring)) == ring_capacity(*old(ring)),
        ring_contents(*old(ring)).len() > 0 ==> popped == Some(ring_contents(*old(ring))[0])
            && ring_contents(*final(ring)) == ring_contents(*old(ring)).skip(1),
        ring_contents(*old(ring)).len() == 0 ==> popped is None && ring_contents(*final(ring))
            == ring_contents(*old(ring)),
{
    ringbuf::Rb::pop(&mut ring.inner)
}

/// `ringbuf::Rb::len`: the number of items stored.
#[verifier::external_body]
fn ring_len(ring: &SampleRing) -> (n: usize)
    ensures
        n == ring_contents(*ring).len(),
{
    ringbuf::Rb::len(&ring.inner)
}

/// `ringbuf::Rb::capacity`: the constant capacity the ring was made with.
#[verifier::external_body]
fn ring_capacity_of(ring: &SampleRing) -> (n: usize)
    ensures
        n == ring_capacity(*ring),
{
    ringbuf::Rb::capacity(&ring.inner)
}

/// `ringbuf::Rb::iter`: walks the stored items front to back without
/// removing any; the copy holds them in that order.
#[verifier::external_body]
fn ring_to_vec(ring: &SampleRing) -> (held: Vec<u32>)
    ensures
        held@ == ring_contents(*ring),
{
    ringbuf::Rb::iter(&ring.inner).copied().collect()
}

/// The producing end of a split `ringbuf::HeapRb`: a
/// `ringbuf::HeapProducer` of sample bit patterns.
#[verifier::external_body]
pub struct SampleProducer {
    inner: ringbuf::HeapProducer<u32>,
}

/// The consuming end of a split `ringbuf::HeapRb`: a
/// `ringbuf::HeapConsumer` of sample bit patterns.
#[verifier::external_body]
pub struct SampleConsumer {
    inner: ringbuf::HeapConsumer<u32>,
}

/// The free places that the producing end knows of: those the ring had
/// when this end last looked, at the split or at its last push. Only this
/// end fills places, so they stay free until it does; the consumer may
/// have freed more since.
pub uninterp spec fn producer_room(producer: SampleProducer) -> nat;

/// The samples that the producing end has appended to the ring since the
/// split, oldest first. Only this end appends, so the sequence grows by
/// what its pushes put in and by nothing else.
pub uninterp spec fn producer_appended(producer: SampleProducer) -> Seq<u32>;

/// The samples that the consuming end knows of, oldest first: those the
/// ring held when this end last looked, at the split or at its last pop.
/// Only this end removes samples, so they stay at the front in this order
/// until it does; the producer may have appended more since.
pub uninterp spec fn consumer_known(consumer: SampleConsumer) -> Seq<u32>;

/// `ringbuf::HeapRb::split`: moves the ring to shared storage and returns
/// its two ends. The consumer starts out knowing what the ring holds, the
/// producer knowing the places left free and having appended nothing yet.
#[verifier::external_body]
fn ring_split(ring: SampleRing) -> (ends: (SampleProducer, SampleConsumer))
    ensures
        consumer_known(ends.1) == ring_contents(ring),
        producer_appended(ends.0) == Seq::<u32>::empty(),
        ring_contents(ring).len() <= ring_capacity(ring) ==> producer_room(ends.0)
            == ring_capacity(ring) - ring_contents(ring).len(),
{
    let (producer, consumer) = ring.inner.split();
    (SampleProducer { inner: producer }, SampleConsumer { inner: consumer })
}

/// `ringbuf::Producer::push`: the item is appended if the ring has a free
/// place when the producer looks, which it has at least where the producer
/// knew of one; the push takes one place and puts the item behind all that
/// this end appended before. Otherwise the ring is full at that moment,
/// nothing is appended and the item comes back as it was given.
#[verifier::external_body]
fn producer_push(producer: &mut SampleProducer, sample: u32) -> (pushed: Result<(), u32>)
    ensures
        producer_room(*old(producer)) > 0 ==> pushed is Ok,
        pushed is Ok ==> producer_room(*final(producer)) + 1 >= producer_room(*old(producer)),
        pushed is Ok ==> producer_appended(*final(producer)) == producer_appended(
            *old(producer),
        ).push(sample),
        pushed is Err ==> pushed->Err_0 == sample && producer_room(*final(producer)) == 0,
        pushed is Err ==> producer_appended(*final(producer)) == producer_appended(*old(producer)),
{
    producer.inner.push(sample)
}

/// `ringbuf::Consumer::pop`: the oldest item leaves the ring and is
/// returned, which is the first that the consumer knew of where it knew of
/// any; the others it knew of stay at the front. Otherwise the ring is
/// empty at that moment and there is nothing to return.
#[verifier::external_body]
fn consumer_pop(consumer: &mut SampleConsumer) -> (popped: Option<u32>)
    ensures
        consumer_known(*old(consumer)).len() > 0 ==> popped == Some(
            consumer_known(*old(consumer))[0],
        ),
        popped is Some ==> after_pop(consumer_known(*old(consumer))).is_prefix_of(
            consumer_known(*final(consumer)),
        ),
        popped is None ==> consumer_known(*final(consumer)) == Seq::<u32>::empty(),
{
    consumer.inner.pop()
}

/// `n` samples of silence.
pub open spec fn silence(n: nat) -> Seq<u32> {
    Seq::new(n, |i: int| SILENCE)
}

/// Whether a buffer holding `held` with room for `capacity` takes one more.
pub open spec fn push_accepts(held: Seq<u32>, capacity: nat) -> bool {
    held.len() < capacity
}

/// The contents after a push of `sample`: appended if there is room, else
/// unchanged.
pub open spec fn after_push(held: Seq<u32>, capacity: nat, sample: u32) -> Seq<u32> {
    if push_accepts(held, capacity) {
        held.push(sample)
    } else {
        held
    }
}

/// What a pop returns from a buffer holding `held`.
pub open spec fn popped(held: Seq<u32>) -> Option<u32> {
    if held.len() > 0 {
        Some(held[0])
    } else {
        None
    }
}

/// The contents after a pop.
pub open spec fn after_pop(held: Seq<u32>) -> Seq<u32> {
    if held.len() > 0 {
        held.skip(1)
    } else {
        held
    }
}

/// The contents after pushing each of `samples` in turn.
pub open spec fn after_pushes(held: Seq<u32>, capacity: nat, samples: Seq<u32>) -> Seq<u32>
    decreases samples.len(),
{
    if samples.len() == 0 {
        held
    } else {
        after_pushes(after_push(held, capacity, samples[0]), capacity, samples.skip(1))
    }
}

/// What `n` pops in a row return.
pub open spec fn pops(held: Seq<u32>, n: nat) -> Seq<Option<u32>>
    decreases n,
{
    if n == 0 {
        Seq::empty()
    } else {
        seq![popped(held)] + pops(after_pop(held), (n - 1) as nat)
    }
}

/// The contents after `n` pops in a row.
pub open spec fn after_pops(held: Seq<u32>, n: nat) -> Seq<u32>
    decreases n,
{
    if n == 0 {
        held
    } else {
        after_pops(after_pop(held), (n - 1) as nat)
    }
}

/// How many of `wanted` samples a buffer holding `held` has room for.
pub open spec fn room_for(held: Seq<u32>, capacity: nat, wanted: nat) -> nat {
    if held.len() >= capacity {
        0
    } else if wanted <= capacity - held.len() {
        wanted
    } else {
        (capacity - held.len()) as nat
    }
}

/// The block an audio callback of `n` slots is given from a buffer holding
/// `held`: the oldest samples in order, then silence for every slot the
/// buffer could not fill.
pub open spec fn block_from(held: Seq<u32>, n: nat) -> Seq<u32> {
    Seq::new(
        n,
        |i: int|
            if i < held.len() {
                held[i]
            } else {
                SILENCE
            },
    )
}

/// The contents left after a callback of `n` slots was served.
pub open spec fn after_block(held: Seq<u32>, n: nat) -> Seq<u32> {
    if n <= held.len() {
        held.skip(n as int)
    } else {
        Seq::empty()
    }
}

/// A jitter buffer of samples with a capacity fixed at construction.
pub struct JitterBuffer {
    ring: SampleRing,
}

impl JitterBuffer {
    /// The samples held, oldest first.
    pub closed spec fn view(&self) -> Seq<u32> {
        ring_contents(self.ring)
    }

    /// The capacity the buffer was made with.
    pub closed spec fn capacity_spec(&self) -> nat {
        ring_capacity(self.ring)
    }

    /// A buffer has a capacity above zero and never holds more than it.
    pub open spec fn wf(&self) -> bool {
        &&& self.capacity_spec() > 0
        &&& self@.len() <= self.capacity_spec()
    }

    /// Makes an empty buffer for `capacity` samples.
    pub fn with_capacity(capacity: usize) -> (made: Result<JitterBuffer, BufferError>)
        ensures
            capacity == 0 ==> made matches Err(BufferError::ZeroCapacity),
            capacity > 0 ==> (match made {
                Ok(buffer) => buffer.wf() && buffer@ == Seq::<u32>::empty()
                    && buffer.capacity_spec() == capacity,
                Err(e) => e == BufferError::AllocationFailed,
            }),
    {
        if capacity == 0 {
            return Err(BufferError::ZeroCapacity);
        }
        match ring_try_new(capacity) {
            Some(ring) => Ok(JitterBuffer { ring }),
            None => Err(BufferError::AllocationFailed),
        }
    }

    /// Makes the buffer for a latency window of `latency_samples`: its
    /// capacity is twice the window, and it starts out holding one window of
    /// silence, so that the consumer has a full window to draw from before
    /// any real sample arrives.
    pub fn primed(latency_samples: usize) -> (made: Result<JitterBuffer, BufferError>)
        ensures
            latency_samples == 0 ==> made matches Err(BufferError::ZeroCapacity),
            2 * latency_samples > usize::MAX ==> made matches Err(BufferError::CapacityOverflow),
            0 < latency_samples && 2 * latency_samples <= usize::MAX ==> (match made {
                Ok(buffer) => buffer.wf() && buffer@ == silence(latency_samples as nat)
                    && buffer.capacity_spec() == 2 * latency_samples,
                Err(e) => e == BufferError::AllocationFailed,
            }),
    {
        if latency_samples == 0 {
            return Err(BufferError::ZeroCapacity);
        }
        if latency_samples > usize::MAX / 2 {
            return Err(BufferError::CapacityOverflow);
        }
        match JitterBuffer::with_capacity(2 * latency_samples) {
            Ok(mut buffer) => {
                let _ = buffer.fill_silence(latency_samples);
                Ok(buffer)
            },
            Err(e) => Err(e),
        }
    }

    /// Pushes up to `count` samples of silence and returns how many the
    /// buffer took: as many as it had room for.
    pub fn fill_silence(&mut self, count: usize) -> (taken: usize)
        requires
            old(self).wf(),
        ensures
            final(self).wf(),
            final(self).capacity_spec() == old(self).capacity_spec(),
            taken == room_for(old(self)@, old(self).capacity_spec(), count as nat),
            final(self)@ == old(self)@ + silence(taken as nat),
    {
        let mut taken: usize = 0;
        while taken < count
            invariant
                self.wf(),
                self.capacity_spec() == old(self).capacity_spec(),
                taken <= count,
                self@ == old(self)@ + silence(taken as nat),
            ensures
                taken == room_for(old(self)@, old(self).capacity_spec(), count as nat),
            decreases count - taken,
        {
            if !self.push(SILENCE) {
                break ;
            }
            assert(silence(taken as nat).push(SILENCE) =~= silence((taken + 1) as nat));
            assert((old(self)@ + silence(taken as nat)).push(SILENCE) =~= old(self)@ + silence(
                (taken + 1) as nat,
            ));
            taken = taken + 1;
        }
        taken
    }

    /// Appends `sample` unless the buffer is full. A full buffer drops the
    /// new sample and keeps what it holds, in order. Returns whether the
    /// sample was taken. Never waits.
    pub fn push(&mut self, sample: u32) -> (accepted: bool)
        requires
            old(self).wf(),
        ensures
            final(self).wf(),
            final(self).capacity_spec() == old(self).capacity_spec(),
            accepted == push_accepts(old(self)@, old(self).capacity_spec()),
            final(self)@ == after_push(old(self)@, old(self).capacity_spec(), sample),
    {
        match ring_push(&mut self.ring, sample) {
            Ok(_) => true,
            Err(_) => false,
        }
    }

    /// Removes and returns the oldest sample, or returns `None` and leaves
    /// the buffer empty if it holds nothing. Never waits.
    pub fn pop(&mut self) -> (sample: Option<u32>)
        requires
            old(self).wf(),
        ensures
            final(self).wf(),
            final(self).capacity_spec() == old(self).capacity_spec(),
            sample == popped(old(self)@),
            final(self)@ == after_pop(old(self)@),
    {
        ring_pop(&mut self.ring)
    }

    /// The number of samples held.
    pub fn len(&self) -> (n: usize)
        ensures
            n == self@.len(),
    {
        ring_len(&self.ring)
    }

    /// The capacity, constant for the life of the buffer.
    pub fn capacity(&self) -> (n: usize)
        ensures
            n == self.capacity_spec(),
    {
        ring_capacity_of(&self.ring)
    }

    /// Whether the buffer holds nothing.
    pub fn is_empty(&self) -> (empty: bool)
        ensures
            empty == (self@.len() == 0),
    {
        ring_len(&self.ring) == 0
    }

    /// Whether the next push would be dropped.
    pub fn is_full(&self) -> (full: bool)
        ensures
            full == !push_accepts(self@, self.capacity_spec()),
    {
        ring_len(&self.ring) >= ring_capacity_of(&self.ring)
    }

    /// A copy of the samples held, oldest first. The buffer is not changed.
    pub fn snapshot(&self) -> (held: Vec<u32>)
        ensures
            held@ == self@,
    {
        ring_to_vec(&self.ring)
    }

    /// Splits the buffer into its two ends, one for the thread that
    /// produces samples and one for the thread that consumes them. What
    /// the buffer holds goes with them: the consumer knows of every
    /// sample held, the producer of every free place.
    pub fn split(self) -> (ends: (SampleProducer, SampleConsumer))
        requires
            self.wf(),
        ensures
            ends.1@ == self@,
            ends.0.room() == self.capacity_spec() - self@.len(),
            ends.0.appended() == Seq::<u32>::empty(),
    {
        ring_split(self.ring)
    }

    /// Hands a captured block to the buffer, sample by sample. The samples
    /// that fit are appended in order; the rest are dropped. Returns whether
    /// any was dropped.
    pub fn push_block(&mut self, block: &[u32]) -> (overrun: bool)
        requires
            old(self).wf(),
        ensures
            final(self).wf(),
            final(self).capacity_spec() == old(self).capacity_spec(),
            final(self)@ == after_pushes(old(self)@, old(self).capacity_spec(), block@),
            final(self)@ == old(self)@ + block@.take(
                room_for(old(self)@, old(self).capacity_spec(), block@.len()) as int,
            ),
            overrun == (old(self)@.len() + block@.len() > old(self).capacity_spec()),
    {
        let mut overrun = false;
        let mut i: usize = 0;
        while i < block.len()
            invariant
                self.wf(),
                self.capacity_spec() == old(self).capacity_spec(),
                i <= block@.len(),
                self@ == old(self)@ + block@.take(
                    room_for(old(self)@, old(self).capacity_spec(), i as nat) as int,
                ),
                overrun == (old(self)@.len() + i > old(self).capacity_spec()),
            decreases block.len() - i,
        {
            let ghost before = self@;
            let ghost room = room_for(old(self)@, old(self).capacity_spec(), i as nat);
            if !self.push(block[i]) {
                overrun = true;
            } else {
                assert(room == i);
                assert(before.push(block@[i as int]) =~= old(self)@ + block@.take(i + 1));
            }
            i = i + 1;
        }
        proof {
            lemma_pushes(old(self)@, old(self).capacity_spec(), block@);
        }
        overrun
    }

    /// Serves an audio callback: fills every slot of `block` with the next
    /// sample in order, and with silence where the buffer has run empty.
    /// Returns whether any slot had to be filled with silence.
    pub fn fill_block(&mut self, block: &mut Vec<u32>) -> (underrun: bool)
        requires
            old(self).wf(),
        ensures
            final(self).wf(),
            final(self).capacity_spec() == old(self).capacity_spec(),
            final(block)@ == block_from(old(self)@, old(block)@.len()),
            final(self)@ == after_block(old(self)@, old(block)@.len()),
            underrun == (old(block)@.len() > old(self)@.len()),
    {
        let mut underrun = false;
        let n: usize = block.len();
        let mut i: usize = 0;
        while i < n
            invariant
                self.wf(),
                self.capacity_spec() == old(self).capacity_spec(),
                i <= n,
                block@.len() == n,
                n == old(block)@.len(),
                forall|k: int| 0 <= k < i ==> block@[k] == block_from(old(self)@, n as nat)[k],
                self@ == after_block(old(self)@, i as nat),
                underrun == (i > old(self)@.len()),
            decreases n - i,
        {
            let value: u32 = match self.pop() {
                Some(sample) => sample,
                None => {
                    underrun = true;
                    SILENCE
                },
            };
            block.set(i, value);
            assert(self@ =~= after_block(old(self)@, (i + 1) as nat));
            i = i + 1;
        }
        assert(block@ =~= block_from(old(self)@, n as nat));
        underrun
    }
}

/// Whether `kept` is `offered` with some of its samples left out: the
/// samples that stay are in the order in which they were offered.
pub open spec fn kept_in_order(kept: Seq<u32>, offered: Seq<u32>) -> bool
    decreases offered.len(),
{
    if kept.len() == 0 {
        true
    } else if offered.len() == 0 {
        false
    } else if kept.last() == offered.last() && kept_in_order(
        kept.drop_last(),
        offered.drop_last(),
    ) {
        true
    } else {
        kept_in_order(kept, offered.drop_last())
    }
}

/// How many of `wanted` samples fit into `room` free places.
pub open spec fn known_fit(room: nat, wanted: nat) -> nat {
    if wanted <= room {
        wanted
    } else {
        room
    }
}

/// What an audio callback plays in a slot for which a pop returned
/// `popped`: the sample, or silence if there was none.
pub open spec fn slot_spec(popped: Option<u32>) -> u32 {
    match popped {
        Some(sample) => sample,
        None => SILENCE,
    }
}

/// What an audio callback plays in a slot for which a pop returned
/// `popped`.
pub fn sample_or_silence(popped: Option<u32>) -> (slot: u32)
    ensures
        slot == slot_spec(popped),
{
    match popped {
        Some(sample) => sample,
        None => SILENCE,
    }
}

impl SampleProducer {
    /// The free places this end knows of. The buffer has at least these.
    pub closed spec fn room(&self) -> nat {
        producer_room(*self)
    }

    /// The samples this end has appended to the buffer since the split,
    /// oldest first.
    pub closed spec fn appended(&self) -> Seq<u32> {
        producer_appended(*self)
    }

    /// Offers `sample` to the buffer. Returns whether it was taken; a
    /// full buffer drops it. A sample that is taken is appended behind
    /// all that this end appended before; one that is dropped leaves no
    /// trace. A sample is taken wherever this end knows of a free place.
    /// Never waits.
    pub fn push(&mut self, sample: u32) -> (accepted: bool)
        ensures
            old(self).room() > 0 ==> accepted,
            accepted ==> final(self).room() + 1 >= old(self).room(),
            accepted ==> final(self).appended() == old(self).appended().push(sample),
            !accepted ==> final(self).room() == 0,
            !accepted ==> final(self).appended() == old(self).appended(),
    {
        match producer_push(self, sample) {
            Ok(_) => true,
            Err(_) => false,
        }
    }

    /// Offers a captured block to the buffer, sample by sample and in
    /// order, and returns how many samples the buffer dropped. What this
    /// end has appended grows by the samples of the block that were
    /// taken, in the order of the block. None is dropped before the free
    /// places this end knew of are used up, so the block's first samples,
    /// as many as those places, are all taken.
    pub fn push_block(&mut self, block: &[u32]) -> (dropped: usize)
        ensures
            dropped <= block@.len(),
            dropped > 0 ==> block@.len() - dropped >= old(self).room(),
            final(self).room() + (block@.len() - dropped) >= old(self).room(),
            old(self).appended().is_prefix_of(final(self).appended()),
            final(self).appended().len() + dropped == old(self).appended().len() + block@.len(),
            kept_in_order(
                final(self).appended().skip(old(self).appended().len() as int),
                block@,
            ),
            (old(self).appended() + block@.take(
                known_fit(old(self).room(), block@.len()) as int,
            )).is_prefix_of(final(self).appended()),
            dropped == 0 ==> final(self).appended() == old(self).appended() + block@,
    {
        let mut dropped: usize = 0;
        let mut i: usize = 0;
        let ghost before = self.appended();
        let ghost known = known_fit(self.room(), block@.len()) as int;
        assert(before + block@.take(0) =~= before);
        assert(self.appended().skip(before.len() as int) =~= Seq::<u32>::empty());
        while i < block.len()
            invariant
                dropped <= i <= block@.len(),
                dropped > 0 ==> i - dropped >= old(self).room(),
                self.room() + (i - dropped) >= old(self).room(),
                before == old(self).appended(),
                known == known_fit(old(self).room(), block@.len()),
                before.is_prefix_of(self.appended()),
                self.appended().len() + dropped == before.len() + i,
                kept_in_order(self.appended().skip(before.len() as int), block@.take(i as int)),
                (before + block@.take(if i <= known { i as int } else { known })).is_prefix_of(
                    self.appended(),
                ),
                dropped == 0 ==> self.appended() == before + block@.take(i as int),
            decreases block.len() - i,
        {
            let ghost had = self.appended();
            let ghost kept = had.skip(before.len() as int);
            let ghost offered = block@.take(i as int);
            let sample = block[i];
            assert(block@.take(i + 1) =~= offered.push(sample));
            assert(block@.take(i + 1).drop_last() =~= offered);
            if !self.push(sample) {
                dropped = dropped + 1;
                assert(i >= known);
            } else {
                proof {
                    assert(self.appended().skip(before.len() as int) =~= kept.push(sample));
                    assert(kept.push(sample).drop_last() =~= kept);
                    assert(before.is_prefix_of(self.appended()));
                    if dropped == 0 {
                        assert(self.appended() =~= before + block@.take(i + 1));
                    }
                    if i >= known {
                        assert((before + block@.take(known)).is_prefix_of(had));
                        assert((before + block@.take(known)).is_prefix_of(self.appended()));
                    } else {
                        assert(dropped == 0);
                    }
                }
            }
            i = i + 1;
        }
        assert(block@.take(block@.len() as int) =~= block@);
        dropped
    }
}

impl SampleConsumer {
    /// The samples this end knows of, oldest first. The buffer holds
    /// these at its front.
    pub closed spec fn view(&self) -> Seq<u32> {
        consumer_known(*self)
    }

    /// Takes the oldest sample, if the buffer holds one: the first this
    /// end knew of, where it knew of any. Never waits.
    pub fn pop(&mut self) -> (sample: Option<u32>)
        ensures
            old(self)@.len() > 0 ==> sample == popped(old(self)@),
            sample is Some ==> after_pop(old(self)@).is_prefix_of(final(self)@),
            sample is None ==> final(self)@ == Seq::<u32>::empty(),
    {
        consumer_pop(self)
    }

    /// Serves an audio callback: every slot of `block` gets the sample
    /// that a pop returned for it, or silence where the pop returned
    /// none. The samples this end knew of come first, in order. Returns
    /// the number of slots that a pop had nothing for, which are among
    /// those beyond the known samples.
    pub fn fill_block(&mut self, block: &mut Vec<u32>) -> (missing: usize)
        ensures
            final(block)@.len() == old(block)@.len(),
            forall|k: int|
                0 <= k < old(block)@.len() && k < old(self)@.len() ==> final(block)@[k] == old(
                    self,
                )@[k],
            missing <= old(block)@.len(),
            missing > 0 ==> old(block)@.len() - missing >= old(self)@.len(),
            missing == old(block)@.len() ==> final(block)@ == silence(old(block)@.len()),
            after_block(old(self)@, old(block)@.len()).is_prefix_of(final(self)@),
    {
        let mut missing: usize = 0;
        let n: usize = block.len();
        let mut i: usize = 0;
        assert(old(self)@.skip(0) =~= old(self)@);
        while i < n
            invariant
                missing <= i <= n,
                block@.len() == n,
                n == old(block)@.len(),
                forall|k: int| 0 <= k < i && k < old(self)@.len() ==> block@[k] == old(self)@[k],
                missing > 0 ==> i - missing >= old(self)@.len(),
                missing == i ==> forall|k: int| 0 <= k < i ==> block@[k] == SILENCE,
                after_block(old(self)@, i as nat).is_prefix_of(self@),
            decreases n - i,
        {
            let ghost known = self@;
            let popped = self.pop();
            if popped.is_none() {
                missing = missing + 1;
            }
            block.set(i, sample_or_silence(popped));
            proof {
                let before = after_block(old(self)@, i as nat);
                let after = after_block(old(self)@, (i + 1) as nat);
                if i < old(self)@.len() {
                    assert(before[0] == old(self)@[i as int]);
                    assert(known[0] == before[0]);
                    assert(after =~= before.skip(1));
                    assert(after.is_prefix_of(known.skip(1)));
                    assert(after.is_prefix_of(self@));
                } else {
                    assert(after =~= Seq::<u32>::empty());
                }
            }
            i = i + 1;
        }
        assert(missing == n ==> block@ =~= silence(n as nat));
        missing
    }
}

/// Pushing a run of samples appends those that fit, in order, and drops the
/// rest.
pub proof fn lemma_pushes(held: Seq<u32>, capacity: nat, samples: Seq<u32>)
    ensures
        after_pushes(held, capacity, samples) == held + samples.take(
            room_for(held, capacity, samples.len()) as int,
        ),
    decreases samples.len(),
{
    if samples.len() == 0 {
        assert(held + samples.take(0) =~= held);
    } else {
        let next = after_push(held, capacity, samples[0]);
        let rest = samples.skip(1);
        lemma_pushes(next, capacity, rest);
        let room = room_for(held, capacity, samples.len());
        if held.len() < capacity {
            let rest_room = room_for(next, capacity, rest.len());
            assert(room == rest_room + 1);
            assert(next + rest.take(rest_room as int) =~= held + samples.take(room as int));
        } else {
            assert(next + rest.take(0) =~= held + samples.take(0));
        }
    }
}

/// Popping `n` times returns the held samples in order, and `None` for
/// every pop beyond them.
pub proof fn lemma_pops(held: Seq<u32>, n: nat)
    ensures
        pops(held, n).len() == n,
        forall|i: int|
            0 <= i < n ==> #[trigger] pops(held, n)[i] == if i < held.len() {
                Some(held[i])
            } else {
                None
            },
        after_pops(held, n) == after_block(held, n),
    decreases n,
{
    if n == 0 {
        assert(held.skip(0) =~= held);
    } else {
        let rest = after_pop(held);
        lemma_pops(rest, (n - 1) as nat);
        assert forall|i: int| 0 <= i < n implies #[trigger] pops(held, n)[i] == if i
            < held.len() {
            Some(held[i])
        } else {
            None
        } by {
            if i > 0 {
                assert(pops(held, n)[i] == pops(rest, (n - 1) as nat)[i - 1]);
            }
        }
        assert(after_block(rest, (n - 1) as nat) =~= after_block(held, n));
    }
}

/// First in, first out: into an empty buffer of capacity `capacity`, any
/// run of at most `capacity` pushes followed by as many pops returns the
/// pushed samples in the order they were pushed, and leaves the buffer
/// empty.
pub proof fn lemma_fifo_round_trip(capacity: nat, samples: Seq<u32>)
    requires
        samples.len() <= capacity,
    ensures
        pops(after_pushes(Seq::empty(), capacity, samples), samples.len()) == samples.map_values(
            |s: u32| Some(s),
        ),
        after_pops(after_pushes(Seq::empty(), capacity, samples), samples.len()) == Seq::<
            u32,
        >::empty(),
{
    let held = after_pushes(Seq::empty(), capacity, samples);
    lemma_pushes(Seq::empty(), capacity, samples);
    assert(held =~= samples);
    lemma_pops(held, samples.len());
    assert(pops(held, samples.len()) =~= samples.map_values(|s: u32| Some(s)));
    assert(after_pops(held, samples.len()) =~= Seq::<u32>::empty());
}

/// A buffer primed with a latency window of silence gives that window
/// first: whatever the producer pushes after priming, the first
/// `latency_samples` pops all succeed and return silence.
pub proof fn lemma_primed_silence_first(latency_samples: nat, produced: Seq<u32>)
    ensures
        pops(
            after_pushes(silence(latency_samples), 2 * latency_samples, produced),
            latency_samples,
        ) == Seq::new(latency_samples, |i: int| Some(SILENCE)),
{
    let primed = silence(latency_samples);
    let held = after_pushes(primed, 2 * latency_samples, produced);
    lemma_pushes(primed, 2 * latency_samples, produced);
    lemma_pops(held, latency_samples);
    assert(pops(held, latency_samples) =~= Seq::new(latency_samples, |i: int| Some(SILENCE)));
}

/// An empty buffer answers every pop with `None` and stays empty, however
/// often it is asked.
pub proof fn lemma_empty_pops(n: nat)
    ensures
        pops(Seq::empty(), n) == Seq::new(n, |i: int| None::<u32>),
        after_pops(Seq::empty(), n) == Seq::<u32>::empty(),
{
    lemma_pops(Seq::empty(), n);
    assert(pops(Seq::empty(), n) =~= Seq::new(n, |i: int| None::<u32>));
}

/// A push into a full buffer is rejected and changes nothing: what the
/// buffer holds afterwards, and what any run of pops then returns, is what
/// it was before.
pub proof fn lemma_overrun_keeps_contents(held: Seq<u32>, capacity: nat, sample: u32, n: nat)
    requires
        held.len() == capacity,
    ensures
        !push_accepts(held, capacity),
        after_push(held, capacity, sample) == held,
        pops(after_push(held, capacity, sample), n) == pops(held, n),
{
}

} // verus!
