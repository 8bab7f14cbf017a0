//! Peer discovery: sweeping a subnet for hosts that accept a connection on
//! the relay port, with a fixed bound on the attempts under way at once.
//!
//! The pool decides; its caller connects. The caller asks `next_action`
//! what to do, starts a connection attempt when told to, and reports each
//! attempt's end with `complete`. The sweep covers every address of the
//! subnet, the subnet's own base and broadcast addresses and the host's
//! own address included, and it ends when every attempt has been reported.
//! A failed attempt means that no peer is there; it is not an error.

use vstd::prelude::*;
use crate::subnet::Subnet;

verus! {

/// The port every peer listens on.
pub const RELAY_PORT: u16 = 34234;

/// What the caller of a scan is to do next.
#[derive(Clone, Copy, Debug, PartialEq, Eq, Structural)]
pub enum ScanAction {
    /// Start a connection attempt to this address.
    Attempt(u32),
    /// The pool is full, or every address is taken: wait for an attempt to
    /// end and report it.
    Wait,
    /// Every address was attempted and every attempt has ended.
    Finished,
}

/// A sweep of one subnet with at most `max_workers` attempts under way.
pub struct ScanPool {
    subnet: Subnet,
    max_workers: usize,
    next_offset: u64,
    in_flight: Vec<u32>,
    found: Vec<u32>,
}

impl ScanPool {
    /// The subnet being swept.
    pub closed spec fn subnet_spec(&self) -> Subnet {
        self.subnet
    }

    /// The bound on the attempts under way at once.
    pub closed spec fn max_workers_spec(&self) -> nat {
        self.max_workers as nat
    }

    /// The number of addresses handed out so far; they are the offsets
    /// below this number.
    pub closed spec fn dispatched(&self) -> nat {
        self.next_offset as nat
    }

    /// The addresses whose attempts were handed out and are not yet
    /// reported, in the order in which they were handed out.
    pub closed spec fn under_way(&self) -> Seq<u32> {
        self.in_flight@
    }

    /// The number of attempts handed out and not yet reported.
    pub open spec fn in_flight_spec(&self) -> nat {
        self.under_way().len()
    }

    /// The addresses that accepted a connection, in the order in which
    /// their attempts were reported.
    pub closed spec fn found_spec(&self) -> Seq<u32> {
        self.found@
    }

    /// Whether an attempt on `address` has been handed out: it is the
    /// address at an offset below `dispatched`.
    pub open spec fn attempted(&self, address: u32) -> bool {
        self.subnet_spec().base_spec() <= address < self.subnet_spec().base_spec()
            + self.dispatched()
    }

    /// The pool never has more attempts under way than its bound and
    /// never hands out an offset outside the subnet. An address is under
    /// way or found only if it was handed out, and at most once in all.
    pub open spec fn wf(&self) -> bool {
        &&& self.subnet_spec().wf()
        &&& self.max_workers_spec() > 0
        &&& self.in_flight_spec() <= self.max_workers_spec()
        &&& self.dispatched() <= self.subnet_spec().size_spec()
        &&& self.found_spec().len() + self.in_flight_spec() <= self.dispatched()
        &&& forall|i: int|
            0 <= i < self.found_spec().len() ==> self.attempted(#[trigger] self.found_spec()[i])
        &&& forall|i: int|
            0 <= i < self.under_way().len() ==> self.attempted(#[trigger] self.under_way()[i])
        &&& self.found_spec().no_duplicates()
        &&& self.under_way().no_duplicates()
        &&& forall|i: int, j: int|
            0 <= i < self.under_way().len() && 0 <= j < self.found_spec().len()
                ==> #[trigger] self.under_way()[i] != #[trigger] self.found_spec()[j]
    }

    /// What `next_action` answers in this state.
    pub open spec fn decision(&self) -> ScanAction {
        if self.in_flight_spec() < self.max_workers_spec() && self.dispatched()
            < self.subnet_spec().size_spec() {
            ScanAction::Attempt(self.subnet_spec().address_at_spec(self.dispatched()) as u32)
        } else if self.in_flight_spec() > 0 {
            ScanAction::Wait
        } else {
            ScanAction::Finished
        }
    }

    /// Starts a sweep of `subnet`. `None` if `max_workers` is zero: such a
    /// pool could never attempt anything.
    pub fn new(subnet: Subnet, max_workers: usize) -> (pool: Option<ScanPool>)
        requires
            subnet.wf(),
        ensures
            max_workers == 0 ==> pool is None,
            max_workers > 0 ==> (match pool {
                Some(p) => p.wf() && p.subnet_spec() == subnet && p.max_workers_spec()
                    == max_workers && p.dispatched() == 0 && p.under_way() == Seq::<u32>::empty()
                    && p.found_spec() == Seq::<u32>::empty(),
                None => false,
            }),
    {
        if max_workers == 0 {
            return None;
        }
        Some(
            ScanPool {
                subnet,
                max_workers,
                next_offset: 0,
                in_flight: Vec::new(),
                found: Vec::new(),
            },
        )
    }

    /// Decides the caller's next move. While the pool has a free worker
    /// and the subnet an address not yet tried, the answer is an attempt
    /// on the next address in order, which then counts as under way.
    /// Otherwise the caller waits, until nothing is under way.
    pub fn next_action(&mut self) -> (action: ScanAction)
        requires
            old(self).wf(),
        ensures
            final(self).wf(),
            final(self).in_flight_spec() <= final(self).max_workers_spec(),
            action == old(self).decision(),
            final(self).subnet_spec() == old(self).subnet_spec(),
            final(self).max_workers_spec() == old(self).max_workers_spec(),
            final(self).found_spec() == old(self).found_spec(),
            action matches ScanAction::Attempt(address) ==> final(self).dispatched() == old(
                self,
            ).dispatched() + 1 && final(self).under_way() == old(self).under_way().push(address),
            !(action is Attempt) ==> final(self).dispatched() == old(self).dispatched()
                && final(self).under_way() == old(self).under_way(),
    {
        if self.in_flight.len() < self.max_workers {
            match self.subnet.address_at(self.next_offset) {
                Some(address) => {
                    self.next_offset = self.next_offset + 1;
                    self.in_flight.push(address);
                    return ScanAction::Attempt(address);
                },
                None => {},
            }
        }
        if self.in_flight.len() > 0 {
            ScanAction::Wait
        } else {
            ScanAction::Finished
        }
    }

    /// Reports the end of the attempt on `address`. A report is taken if
    /// an attempt on this address is under way; it frees the worker, and
    /// if the attempt connected, the address joins those found, behind the
    /// ones reported earlier. A report that is not taken changes nothing.
    /// Returns whether the report was taken.
    pub fn complete(&mut self, address: u32, connected: bool) -> (taken: bool)
        requires
            old(self).wf(),
        ensures
            final(self).wf(),
            taken == old(self).under_way().contains(address),
            final(self).subnet_spec() == old(self).subnet_spec(),
            final(self).max_workers_spec() == old(self).max_workers_spec(),
            final(self).dispatched() == old(self).dispatched(),
            final(self).under_way() == old(self).under_way().remove_value(address),
            taken ==> final(self).in_flight_spec() == old(self).in_flight_spec() - 1,
            final(self).found_spec() == if taken && connected {
                old(self).found_spec().push(address)
            } else {
                old(self).found_spec()
            },
    {
        proof {
            self.under_way().index_of_first_ensures(address);
        }
        match first_index_of(&self.in_flight, address) {
            None => false,
            Some(i) => {
                proof {
                    self.under_way().remove_ensures(i as int);
                }
                let _ = self.in_flight.remove(i);
                if connected {
                    self.found.push(address);
                }
                true
            },
        }
    }

    /// Whether every address was attempted and every attempt has ended.
    pub fn is_finished(&self) -> (finished: bool)
        requires
            self.wf(),
        ensures
            finished == (self.decision() == ScanAction::Finished),
            finished == (self.in_flight_spec() == 0 && self.dispatched()
                == self.subnet_spec().size_spec()),
    {
        self.in_flight.len() == 0 && self.next_offset >= self.subnet.size()
    }

    /// The number of attempts under way.
    pub fn in_flight(&self) -> (n: usize)
        ensures
            n == self.in_flight_spec(),
    {
        self.in_flight.len()
    }

    /// The bound on the attempts under way at once.
    pub fn max_workers(&self) -> (n: usize)
        ensures
            n == self.max_workers_spec(),
    {
        self.max_workers
    }

    /// The addresses found so far, in the order in which their attempts
    /// were reported.
    pub fn found(&self) -> (found: Vec<u32>)
        ensures
            found@ == self.found_spec(),
    {
        self.found.clone()
    }
}

/// The first place at which `address` stands in `addresses`, if it stands
/// there at all.
pub fn first_index_of(addresses: &Vec<u32>, address: u32) -> (place: Option<usize>)
    ensures
        place is Some == addresses@.contains(address),
        place matches Some(i) ==> addresses@.index_of_first(address) == Some(i as int),
{
    let mut i: usize = 0;
    while i < addresses.len()
        invariant
            i <= addresses@.len(),
            forall|k: int| 0 <= k < i ==> addresses@[k] != address,
        decreases addresses.len() - i,
    {
        if addresses[i] == address {
            proof {
                addresses@.index_of_first_ensures(address);
                assert(addresses@[i as int] == address);
                assert(addresses@.contains(address));
                let first = addresses@.index_of_first(address);
                assert(first is Some);
                assert(addresses@[first->Some_0] == address);
                assert(first->Some_0 == i);
            }
            return Some(i);
        }
        i = i + 1;
    }
    None
}

/// A finished sweep has covered the subnet: nothing is under way, and the
/// addresses attempted are exactly the addresses of the subnet, its base
/// and its last address included.
pub proof fn lemma_finished_sweep_covers_subnet(pool: ScanPool)
    requires
        pool.wf(),
        pool.decision() == ScanAction::Finished,
    ensures
        pool.in_flight_spec() == 0,
        pool.dispatched() == pool.subnet_spec().size_spec(),
        forall|address: u32| #[trigger]
            pool.attempted(address) <==> pool.subnet_spec().contains_spec(address),
{
}

/// At every moment of a sweep, the attempts under way are at most the
/// pool's bound, every address attempted is one of the subnet, every
/// address found is one of the subnet, and none is found twice.
pub proof fn lemma_sweep_stays_in_bounds(pool: ScanPool)
    requires
        pool.wf(),
    ensures
        pool.in_flight_spec() <= pool.max_workers_spec(),
        pool.found_spec().len() + pool.in_flight_spec() <= pool.dispatched(),
        forall|address: u32| #[trigger]
            pool.attempted(address) ==> pool.subnet_spec().contains_spec(address),
        forall|i: int|
            0 <= i < pool.found_spec().len() ==> pool.subnet_spec().contains_spec(
                #[trigger] pool.found_spec()[i],
            ),
        pool.found_spec().no_duplicates(),
{
}

/// A sweep that is told to wait has an attempt under way whose end will
/// be reported: it never waits for nothing.
pub proof fn lemma_wait_has_attempt_under_way(pool: ScanPool)
    requires
        pool.wf(),
        pool.decision() == ScanAction::Wait,
    ensures
        pool.in_flight_spec() > 0,
{
}

} // verus!
