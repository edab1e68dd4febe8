//! The client side of a connection: its configuration, the handshake it
//! initiates, the admission of requests and pushes (only while ready, never
//! after close), and the policy that registers waiters under freshly
//! allocated sequence ids and resolves them against incoming responses.

use vstd::prelude::*;

use crate::connection::{lifecycle_step, ConnectionState, LifecycleEvent};
use crate::encoding::{clone_bytes, clone_names, find_encoding};
use crate::error::TokuError;
use crate::frames::{Hello, HelloAck, Push, Request, TokuFrame};
use crate::handler::{DelegatedFrame, Ready};
use crate::id_sequence::IdSequence;
use crate::waiter::{Waiter, WaiterMap};
use crate::wire::FrameSpec;
use crate::VERSION;

verus! {

/// What a client endpoint is constructed with.
#[derive(Debug, Clone, PartialEq)]
pub struct ClientConfig {
    pub max_payload_size: u32,
    pub request_timeout_ms: u64,
    pub handshake_timeout_ms: u64,
    pub supported_encodings: Vec<Vec<u8>>,
}

/// Events the client API injects into its connection's loop.
#[derive(Debug)]
pub enum InternalEvent {
    /// Issue a correlated request and notify this waiter with the outcome.
    Request { payload: Vec<u8>, waiter: Waiter },
    /// Issue a fire-and-forget push.
    Push { payload: Vec<u8> },
}

/// The client's per-connection policy: the in-flight map from sequence ids
/// to waiters.
pub struct ClientConnectionHandler {
    pub waiters: WaiterMap,
}

impl ClientConnectionHandler {
    /// Every in-flight sequence id was allocated before the allocator's
    /// next id.
    pub open spec fn well_formed(&self, ids: IdSequence) -> bool {
        &&& self.waiters.wf()
        &&& forall|k: u32| self.waiters@.contains_key(k) ==> k < ids.next_id
    }

    /// A fresh policy with nothing in flight.
    pub fn new() -> (r: Self)
        ensures
            r.waiters.wf(),
            r.waiters@ == Map::<u32, Waiter>::empty(),
    {
        ClientConnectionHandler { waiters: WaiterMap::new() }
    }

    /// The client closes silently, without a `GoAway`.
    pub fn send_go_away(&self) -> (r: bool)
        ensures
            !r,
    {
        false
    }

    /// Handles an injected event: a request allocates a fresh sequence id,
    /// registers the waiter under it, and emits the `Request` frame; a push
    /// emits a `Push` frame and registers nothing.
    pub fn handle_internal_event(&mut self, event: InternalEvent, id_sequence: &mut IdSequence) -> (r:
        Option<TokuFrame>)
        requires
            old(self).well_formed(*old(id_sequence)),
            old(id_sequence).next_id < u32::MAX,
        ensures
            final(self).well_formed(*final(id_sequence)),
            match event {
                InternalEvent::Request { payload, waiter } => {
                    &&& final(id_sequence).next_id == old(id_sequence).next_id + 1
                    &&& final(self).waiters@ == old(self).waiters@.insert(
                        old(id_sequence).next_id,
                        waiter,
                    )
                    &&& r == Some(
                        TokuFrame::Request(
                            (Request {
                                flags: 0,
                                sequence_id: old(id_sequence).next_id,
                                payload,
                            }),
                        ),
                    )
                },
                InternalEvent::Push { payload } => {
                    &&& *final(id_sequence) == *old(id_sequence)
                    &&& final(self).waiters@ == old(self).waiters@
                    &&& r == Some(TokuFrame::Push((Push { flags: 0, payload })))
                },
            },
    {
        match event {
            InternalEvent::Request { payload, waiter } => {
                let sequence_id = id_sequence.next();
                self.waiters.insert(sequence_id, waiter);
                Some(TokuFrame::Request(Request { flags: 0, sequence_id, payload }))
            }
            InternalEvent::Push { payload } => Some(TokuFrame::Push(Push { flags: 0, payload })),
        }
    }

    /// The periodic callback fired when a ping arrives; the client does
    /// nothing with it.
    pub fn on_ping_received(&mut self)
        ensures
            *final(self) == *old(self),
    {
    }

    /// Handles a delegated frame: a response or error resolves the waiter
    /// registered under its sequence id, if one is still in flight, and an
    /// unmatched correlation is dropped silently; requests and pushes
    /// received by a client are ignored.
    pub fn handle_frame(&mut self, frame: DelegatedFrame) -> (r: Option<(
        Waiter,
        Result<Vec<u8>, TokuError>,
    )>)
        requires
            old(self).waiters.wf(),
        ensures
            final(self).waiters.wf(),
            match frame {
                DelegatedFrame::Response(response) => {
                    &&& final(self).waiters@ == old(self).waiters@.remove(response.sequence_id)
                    &&& r == if old(self).waiters@.contains_key(response.sequence_id) {
                        Some(
                            (
                                old(self).waiters@[response.sequence_id],
                                Ok::<Vec<u8>, TokuError>(response.payload),
                            ),
                        )
                    } else {
                        None::<(Waiter, Result<Vec<u8>, TokuError>)>
                    }
                },
                DelegatedFrame::Error(error) => {
                    &&& final(self).waiters@ == old(self).waiters@.remove(error.sequence_id)
                    &&& r == if old(self).waiters@.contains_key(error.sequence_id) {
                        Some(
                            (
                                old(self).waiters@[error.sequence_id],
                                Err::<Vec<u8>, TokuError>(
                                    TokuError::InternalServerError { message: error.payload },
                                ),
                            ),
                        )
                    } else {
                        None::<(Waiter, Result<Vec<u8>, TokuError>)>
                    }
                },
                _ => final(self).waiters@ == old(self).waiters@ && r is None,
            },
    {
        match frame {
            DelegatedFrame::Response(response) => {
                match self.waiters.resolve(response.sequence_id) {
                    Some(waiter) => Some((waiter, Ok(response.payload))),
                    None => None,
                }
            }
            DelegatedFrame::Error(error) => {
                match self.waiters.resolve(error.sequence_id) {
                    Some(waiter) => Some(
                        (waiter, Err(TokuError::InternalServerError { message: error.payload })),
                    ),
                    None => None,
                }
            }
            DelegatedFrame::Request(_) => None,
            DelegatedFrame::Push(_) => None,
        }
    }
}

/// The client-facing connection handle, as the loop task owns it: the
/// lifecycle state and the encoding interned at handshake.
#[derive(Debug)]
pub struct Client {
    pub state: ConnectionState,
    pub encoding: Option<Vec<u8>>,
    pub request_timeout_ms: u64,
}

impl Client {
    /// A handle for a connection that has just been opened.
    pub fn new(request_timeout_ms: u64) -> (r: Client)
        ensures
            r.state == ConnectionState::Upgrading,
            r.encoding is None,
            r.request_timeout_ms == request_timeout_ms,
    {
        Client { state: ConnectionState::Upgrading, encoding: None, request_timeout_ms }
    }

    /// Whether application traffic is accepted.
    pub fn is_ready(&self) -> (r: bool)
        ensures
            r == (self.state is Ready),
    {
        self.state.is_ready()
    }

    /// Whether the connection has closed.
    pub fn is_closed(&self) -> (r: bool)
        ensures
            r == (self.state is Closed),
    {
        self.state.is_closed()
    }

    /// The encoding negotiated at handshake, available only while ready.
    pub fn encoding(&self) -> (r: Result<Vec<u8>, TokuError>)
        ensures
            !(self.state is Ready) ==> r == Err::<Vec<u8>, TokuError>(TokuError::NotReady),
            self.state is Ready ==> match self.encoding {
                Some(e) => r matches Ok(v) && v@ == e@,
                None => r == Err::<Vec<u8>, TokuError>(TokuError::NoClientEncoding),
            },
    {
        if !self.is_ready() {
            return Err(TokuError::NotReady);
        }
        match &self.encoding {
            Some(e) => Ok(clone_bytes(e)),
            None => Err(TokuError::NoClientEncoding),
        }
    }

    /// Whether a request or push is admitted right now: never after the
    /// connection closed, and not before it is ready.
    pub fn check_send(&self) -> (r: Result<(), TokuError>)
        ensures
            self.state is Closed ==> r == Err::<(), TokuError>(TokuError::ConnectionClosed),
            !(self.state is Closed) && !(self.state is Ready) ==> r == Err::<(), TokuError>(
                TokuError::NotReady,
            ),
            self.state is Ready ==> r is Ok,
    {
        if self.is_closed() {
            return Err(TokuError::ConnectionClosed);
        }
        if !self.is_ready() {
            return Err(TokuError::NotReady);
        }
        Ok(())
    }

    /// Admits a request: the injected event carrying the payload and the
    /// caller's waiter, or the immediate rejection.
    pub fn prepare_request(&self, payload: Vec<u8>, waiter: Waiter) -> (r: Result<
        InternalEvent,
        TokuError,
    >)
        ensures
            self.state is Closed ==> r == Err::<InternalEvent, TokuError>(
                TokuError::ConnectionClosed,
            ),
            !(self.state is Closed) && !(self.state is Ready) ==> r == Err::<
                InternalEvent,
                TokuError,
            >(TokuError::NotReady),
            self.state is Ready ==> r == Ok::<InternalEvent, TokuError>(
                InternalEvent::Request { payload, waiter },
            ),
    {
        match self.check_send() {
            Ok(_) => Ok(InternalEvent::Request { payload, waiter }),
            Err(e) => Err(e),
        }
    }

    /// Admits a push: the injected event carrying the payload, or the
    /// immediate rejection.
    pub fn prepare_push(&self, payload: Vec<u8>) -> (r: Result<InternalEvent, TokuError>)
        ensures
            self.state is Closed ==> r == Err::<InternalEvent, TokuError>(
                TokuError::ConnectionClosed,
            ),
            !(self.state is Closed) && !(self.state is Ready) ==> r == Err::<
                InternalEvent,
                TokuError,
            >(TokuError::NotReady),
            self.state is Ready ==> r == Ok::<InternalEvent, TokuError>(
                InternalEvent::Push { payload },
            ),
    {
        match self.check_send() {
            Ok(_) => Ok(InternalEvent::Push { payload }),
            Err(e) => Err(e),
        }
    }

    /// Records a completed handshake: the connection becomes ready and the
    /// negotiated encoding is interned for its life.
    pub fn handshake_completed(&mut self, ready: Ready)
        requires
            old(self).state is Handshaking,
        ensures
            final(self).state == lifecycle_step(
                old(self).state,
                LifecycleEvent::HandshakeComplete,
            ),
            final(self).state is Ready,
            final(self).encoding == Some(ready.encoding),
            final(self).request_timeout_ms == old(self).request_timeout_ms,
    {
        self.state.advance(LifecycleEvent::HandshakeComplete);
        self.encoding = Some(ready.encoding);
    }

    /// Performs one lifecycle transition on the connection.
    pub fn advance_state(&mut self, event: LifecycleEvent)
        ensures
            final(self).state == lifecycle_step(old(self).state, event),
            final(self).encoding == old(self).encoding,
            final(self).request_timeout_ms == old(self).request_timeout_ms,
    {
        self.state.advance(event);
    }
}

/// The `Hello` a client opens its handshake with: the protocol version and
/// its supported encodings, with no compressions offered.
pub fn make_hello(supported_encodings: &Vec<Vec<u8>>) -> (r: Hello)
    ensures
        r@ == (FrameSpec::Hello {
            flags: 0,
            version: VERSION,
            encodings: supported_encodings.deep_view(),
            compressions: Seq::<Seq<u8>>::empty(),
        }),
{
    let encodings = clone_names(supported_encodings);
    let compressions: Vec<Vec<u8>> = Vec::new();
    proof {
        assert(compressions.deep_view() =~= Seq::<Seq<u8>>::empty());
    }
    Hello { flags: 0, version: VERSION, encodings, compressions }
}

/// Validates the server's `HelloAck`: the chosen compression must be
/// absent (none was offered) and the chosen encoding must be one the
/// client supports; on success yields the connection's `Ready` settings.
pub fn handle_hello_ack(ack: HelloAck, supported_encodings: &Vec<Vec<u8>>) -> (r: Result<
    Ready,
    TokuError,
>)
    ensures
        ack.compression is Some ==> r == Err::<Ready, TokuError>(TokuError::InvalidCompression),
        ack.compression is None && supported_encodings.deep_view().contains(
            ack.encoding.deep_view(),
        ) ==> (r matches Ok(ready) && ready.ping_interval_ms == ack.ping_interval_ms
            && ready.encoding@ == ack.encoding@),
        ack.compression is None && !supported_encodings.deep_view().contains(
            ack.encoding.deep_view(),
        ) ==> r == Err::<Ready, TokuError>(TokuError::InvalidEncoding),
{
    if ack.compression.is_some() {
        return Err(TokuError::InvalidCompression);
    }
    match find_encoding(&ack.encoding, supported_encodings) {
        Some(_) => Ok(Ready { ping_interval_ms: ack.ping_interval_ms, encoding: ack.encoding }),
        None => Err(TokuError::InvalidEncoding),
    }
}

} // verus!
