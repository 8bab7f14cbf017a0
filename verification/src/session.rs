//! The session: the life of one relay, from start through the search for a
//! peer to streaming and to its end, as a state machine. The session's
//! owner performs the work and reports each event; `step` says which state
//! follows.

use vstd::prelude::*;

verus! {

/// The states of a session.
#[derive(Clone, Copy, Debug, PartialEq, Eq, Structural)]
pub enum SessionState {
    /// Nothing has started.
    Idle,
    /// The subnet is being worked out and the sweep prepared.
    Discovering,
    /// Connection attempts are under way: the sweep's, or the one attempt
    /// on a peer given by address.
    Connecting,
    /// A connection is established.
    Connected,
    /// The audio stream and the relay workers are running.
    Streaming,
    /// The session is over.
    Closed,
}

/// What can happen to a session.
#[derive(Clone, Copy, Debug, PartialEq, Eq, Structural)]
pub enum SessionEvent {
    /// The session is started to search the subnet for a peer.
    StartDiscovery,
    /// The session is started with the address of a peer.
    StartWithPeer,
    /// The sweep's workers have begun their attempts.
    AttemptsStarted,
    /// An attempt gave a usable connection.
    ConnectionReady,
    /// Every attempt has ended and none gave a connection.
    NoPeerFound,
    /// The audio stream and the relay workers are running.
    StreamsRunning,
    /// The connection was lost or a relay worker hit an I/O error.
    ConnectionLost,
    /// An audio device could not be set up or failed.
    DeviceFailed,
    /// The owner ends the session.
    Shutdown,
}

/// The state that follows `state` on `event`. An event that does not
/// belong to a state leaves the state as it is.
pub open spec fn next_state(state: SessionState, event: SessionEvent) -> SessionState {
    match (state, event) {
        (SessionState::Closed, _) => SessionState::Closed,
        (_, SessionEvent::Shutdown) => SessionState::Closed,
        (_, SessionEvent::DeviceFailed) => SessionState::Closed,
        (SessionState::Idle, SessionEvent::StartDiscovery) => SessionState::Discovering,
        (SessionState::Idle, SessionEvent::StartWithPeer) => SessionState::Connecting,
        (SessionState::Discovering, SessionEvent::AttemptsStarted) => SessionState::Connecting,
        (SessionState::Connecting, SessionEvent::ConnectionReady) => SessionState::Connected,
        (SessionState::Connecting, SessionEvent::NoPeerFound) => SessionState::Closed,
        (SessionState::Connected, SessionEvent::StreamsRunning) => SessionState::Streaming,
        (SessionState::Connected, SessionEvent::ConnectionLost) => SessionState::Closed,
        (SessionState::Streaming, SessionEvent::ConnectionLost) => SessionState::Closed,
        (s, _) => s,
    }
}

/// How far along a state is: states only ever move to a higher rank.
pub open spec fn rank(state: SessionState) -> nat {
    match state {
        SessionState::Idle => 0,
        SessionState::Discovering => 1,
        SessionState::Connecting => 2,
        SessionState::Connected => 3,
        SessionState::Streaming => 4,
        SessionState::Closed => 5,
    }
}

/// The state after a run of events, taken in order.
pub open spec fn state_after(state: SessionState, events: Seq<SessionEvent>) -> SessionState
    decreases events.len(),
{
    if events.len() == 0 {
        state
    } else {
        state_after(next_state(state, events[0]), events.skip(1))
    }
}

/// The state that follows `state` on `event`.
pub fn step(state: SessionState, event: SessionEvent) -> (next: SessionState)
    ensures
        next == next_state(state, event),
{
    match state {
        SessionState::Closed => SessionState::Closed,
        _ => match event {
            SessionEvent::Shutdown => SessionState::Closed,
            SessionEvent::DeviceFailed => SessionState::Closed,
            SessionEvent::StartDiscovery => match state {
                SessionState::Idle => SessionState::Discovering,
                _ => state,
            },
            SessionEvent::StartWithPeer => match state {
                SessionState::Idle => SessionState::Connecting,
                _ => state,
            },
            SessionEvent::AttemptsStarted => match state {
                SessionState::Discovering => SessionState::Connecting,
                _ => state,
            },
            SessionEvent::ConnectionReady => match state {
                SessionState::Connecting => SessionState::Connected,
                _ => state,
            },
            SessionEvent::NoPeerFound => match state {
                SessionState::Connecting => SessionState::Closed,
                _ => state,
            },
            SessionEvent::StreamsRunning => match state {
                SessionState::Connected => SessionState::Streaming,
                _ => state,
            },
            SessionEvent::ConnectionLost => match state {
                SessionState::Connected => SessionState::Closed,
                SessionState::Streaming => SessionState::Closed,
                _ => state,
            },
        },
    }
}

/// Runs a session through `events` in order and returns the state it ends
/// in.
pub fn run(state: SessionState, events: &[SessionEvent]) -> (last: SessionState)
    ensures
        last == state_after(state, events@),
{
    let mut current = state;
    let mut i: usize = 0;
    assert(events@.skip(0) =~= events@);
    while i < events.len()
        invariant
            i <= events@.len(),
            state_after(state, events@) == state_after(current, events@.skip(i as int)),
        decreases events.len() - i,
    {
        proof {
            let tail = events@.skip(i as int);
            assert(tail[0] == events@[i as int]);
            assert(tail.skip(1) =~= events@.skip(i + 1));
        }
        current = step(current, events[i]);
        i = i + 1;
    }
    current
}

/// Whether the session is over.
pub fn is_closed(state: SessionState) -> (closed: bool)
    ensures
        closed == (state == SessionState::Closed),
{
    match state {
        SessionState::Closed => true,
        _ => false,
    }
}

/// The states in the life of a peer.
#[derive(Clone, Copy, Debug, PartialEq, Eq, Structural)]
pub enum PeerState {
    /// The address accepted a connection during the search.
    Discovered,
    /// The connection is held for streaming.
    Connected,
    /// A relay worker is running on the connection.
    Streaming,
    /// The connection is closed.
    Closed,
}

/// A peer: a host that accepted a connection. The socket itself is held
/// by the owner of the session.
#[derive(Clone, Copy, Debug, PartialEq, Eq, Structural)]
pub struct Peer {
    pub address: u32,
    pub state: PeerState,
}

/// The state a peer is in after its next step forward. A closed peer
/// stays closed.
pub open spec fn peer_advanced(state: PeerState) -> PeerState {
    match state {
        PeerState::Discovered => PeerState::Connected,
        PeerState::Connected => PeerState::Streaming,
        PeerState::Streaming => PeerState::Closed,
        PeerState::Closed => PeerState::Closed,
    }
}

impl Peer {
    /// A peer found at `address`.
    pub fn discovered(address: u32) -> (peer: Peer)
        ensures
            peer == (Peer { address, state: PeerState::Discovered }),
    {
        Peer { address, state: PeerState::Discovered }
    }

    /// Moves the peer one step along its life: from discovered to
    /// connected, to streaming, to closed.
    pub fn advance(&mut self)
        ensures
            final(self).address == old(self).address,
            final(self).state == peer_advanced(old(self).state),
    {
        let next = match self.state {
            PeerState::Discovered => PeerState::Connected,
            PeerState::Connected => PeerState::Streaming,
            PeerState::Streaming => PeerState::Closed,
            PeerState::Closed => PeerState::Closed,
        };
        self.state = next;
    }

    /// Closes the peer, whatever state it is in.
    pub fn close(&mut self)
        ensures
            final(self).address == old(self).address,
            final(self).state == PeerState::Closed,
    {
        self.state = PeerState::Closed;
    }

    /// Whether a relay worker may run on the peer's connection.
    pub fn is_streaming(&self) -> (streaming: bool)
        ensures
            streaming == (self.state == PeerState::Streaming),
    {
        match self.state {
            PeerState::Streaming => true,
            _ => false,
        }
    }
}

/// A session never moves backwards, and a closed session stays closed.
pub proof fn lemma_step_advances(state: SessionState, event: SessionEvent)
    ensures
        rank(next_state(state, event)) >= rank(state),
        state == SessionState::Closed ==> next_state(state, event) == SessionState::Closed,
{
}

/// Whatever events follow, a session never moves backwards.
pub proof fn lemma_run_advances(state: SessionState, events: Seq<SessionEvent>)
    ensures
        rank(state_after(state, events)) >= rank(state),
    decreases events.len(),
{
    if events.len() > 0 {
        lemma_step_advances(state, events[0]);
        lemma_run_advances(next_state(state, events[0]), events.skip(1));
    }
}

/// A session streams only over an established connection: the one state
/// from which a step leads into streaming is `Connected`.
pub proof fn lemma_streaming_follows_connected(state: SessionState, event: SessionEvent)
    requires
        next_state(state, event) == SessionState::Streaming,
        state != SessionState::Streaming,
    ensures
        state == SessionState::Connected,
        event == SessionEvent::StreamsRunning,
{
}

/// Given the address of a peer, a session goes from idle straight to
/// connecting, without a search.
pub proof fn lemma_explicit_peer_skips_discovery()
    ensures
        next_state(SessionState::Idle, SessionEvent::StartWithPeer) == SessionState::Connecting,
        next_state(SessionState::Idle, SessionEvent::StartDiscovery) == SessionState::Discovering,
{
}

} // verus!
