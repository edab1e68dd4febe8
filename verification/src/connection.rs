//! The per-connection lifecycle state machine and the events that the
//! connection's event loop multiplexes. The lifecycle only ever moves
//! forward: `Upgrading → Handshaking → Ready → Closing → Closed`, with
//! `Closed` absorbing, so readiness is entered at most once and closedness
//! is permanent.

use vstd::prelude::*;

use crate::frames::{Response, TokuFrame};

verus! {

/// The lifecycle phase of one connection.
#[derive(Debug, Clone, Copy, PartialEq, Eq, Structural)]
pub enum ConnectionState {
    /// The HTTP-style upgrade exchange is still in progress.
    Upgrading,
    /// The `Hello`/`HelloAck` exchange is still in progress.
    Handshaking,
    /// Application traffic is accepted.
    Ready,
    /// A terminal error occurred; best-effort goodbye is in progress.
    Closing,
    /// Absorbing final state.
    Closed,
}

/// How far along its life a connection is; the driver only moves this
/// number up.
pub open spec fn state_rank(s: ConnectionState) -> int {
    match s {
        ConnectionState::Upgrading => 0,
        ConnectionState::Handshaking => 1,
        ConnectionState::Ready => 2,
        ConnectionState::Closing => 3,
        ConnectionState::Closed => 4,
    }
}

/// The lifecycle transitions the driver performs.
#[derive(Debug, Clone, Copy, PartialEq, Eq, Structural)]
pub enum LifecycleEvent {
    /// The upgrade exchange finished.
    UpgradeComplete,
    /// The handshake finished and the connection is ready.
    HandshakeComplete,
    /// A terminal error or close request arrived.
    CloseStarted,
    /// The goodbye was sent (or skipped) and the socket dropped.
    CloseFinished,
}

/// The lifecycle transition function: ill-timed events are ignored and
/// `Closed` absorbs everything.
pub open spec fn lifecycle_step(s: ConnectionState, e: LifecycleEvent) -> ConnectionState {
    match s {
        ConnectionState::Closed => ConnectionState::Closed,
        _ => match e {
            LifecycleEvent::UpgradeComplete => if s is Upgrading {
                ConnectionState::Handshaking
            } else {
                s
            },
            LifecycleEvent::HandshakeComplete => if s is Handshaking {
                ConnectionState::Ready
            } else {
                s
            },
            LifecycleEvent::CloseStarted => ConnectionState::Closing,
            LifecycleEvent::CloseFinished => if s is Closing {
                ConnectionState::Closed
            } else {
                s
            },
        },
    }
}

impl ConnectionState {
    /// Performs one lifecycle transition.
    pub fn advance(&mut self, e: LifecycleEvent)
        ensures
            *final(self) == lifecycle_step(*old(self), e),
    {
        match *self {
            ConnectionState::Closed => {}
            _ => {
                match e {
                    LifecycleEvent::UpgradeComplete => {
                        if let ConnectionState::Upgrading = *self {
                            *self = ConnectionState::Handshaking;
                        }
                    }
                    LifecycleEvent::HandshakeComplete => {
                        if let ConnectionState::Handshaking = *self {
                            *self = ConnectionState::Ready;
                        }
                    }
                    LifecycleEvent::CloseStarted => {
                        *self = ConnectionState::Closing;
                    }
                    LifecycleEvent::CloseFinished => {
                        if let ConnectionState::Closing = *self {
                            *self = ConnectionState::Closed;
                        }
                    }
                }
            }
        }
    }

    /// Whether application traffic is accepted.
    pub fn is_ready(&self) -> (r: bool)
        ensures
            r == (*self is Ready),
    {
        matches!(*self, ConnectionState::Ready)
    }

    /// Whether the connection has fully closed.
    pub fn is_closed(&self) -> (r: bool)
        ensures
            r == (*self is Closed),
    {
        matches!(*self, ConnectionState::Closed)
    }
}

/// The lifecycle never moves backwards: each transition keeps or raises the
/// rank of the state.
pub proof fn lemma_lifecycle_monotonic(s: ConnectionState, e: LifecycleEvent)
    ensures
        state_rank(lifecycle_step(s, e)) >= state_rank(s),
{
}

/// Readiness is entered at most once: a transition into `Ready` only comes
/// from `Handshaking`, and once the rank has passed `Ready` no transition
/// returns to it.
pub proof fn lemma_ready_at_most_once(s: ConnectionState, e: LifecycleEvent)
    ensures
        (lifecycle_step(s, e) is Ready && !(s is Ready)) ==> s is Handshaking,
        state_rank(s) > state_rank(ConnectionState::Ready) ==> !(lifecycle_step(s, e) is Ready),
{
}

/// Closedness is permanent: `Closed` absorbs every event.
pub proof fn lemma_closed_absorbing(s: ConnectionState, e: LifecycleEvent)
    ensures
        s is Closed ==> lifecycle_step(s, e) is Closed,
{
}

/// Everything the connection's event loop multiplexes: the ping timer, a
/// frame read from the socket, an event injected by the local policy, the
/// completion of a spawned handler, and a local close request. The error of
/// a failed completion carries the diagnostic message and the sequence id
/// it answers.
pub enum Event<I> {
    Ping,
    SocketReceive(TokuFrame),
    InternalEvent(I),
    ResponseComplete(Result<Response, (Vec<u8>, u32)>),
    Close,
}

} // verus!
