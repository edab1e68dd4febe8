//! The connection's event handler: a pure transition function from the
//! loop's state and one event to the next state and at most one action.
//! The outstanding-ping discipline lives here: the bit `pong_received`
//! records whether the last ping was answered, so at most one ping is ever
//! in flight, and a ping timer that fires while one is outstanding is a
//! `PingTimeout`.

use vstd::prelude::*;

use crate::connection::Event;
use crate::error::{TokuError, TokuErrorCode};
use crate::frames::{Error, Ping, Pong, TokuFrame};
use crate::handler::{DelegatedFrame, EventOutcome};
use crate::id_sequence::IdSequence;

verus! {

/// The loop-local state of one connection's event handling: whether the
/// last ping was answered, and the sequence-id allocator.
#[derive(Debug, Clone, Copy, PartialEq, Eq, Structural)]
pub struct EventHandler {
    pub pong_received: bool,
    pub id_sequence: IdSequence,
}

/// What handling one event does: the state afterwards and either the
/// resulting action or the terminal error.
pub open spec fn event_step<I>(s: EventHandler, event: Event<I>) -> (
    EventHandler,
    Result<EventOutcome<I>, TokuError>,
) {
    match event {
        Event::Ping => if s.pong_received {
            (
                EventHandler {
                    pong_received: false,
                    id_sequence: IdSequence { next_id: (s.id_sequence.next_id + 1) as u32 },
                },
                Ok(
                    EventOutcome::Emit(
                        TokuFrame::Ping(Ping { flags: 0, sequence_id: s.id_sequence.next_id }),
                    ),
                ),
            )
        } else {
            (s, Err(TokuError::PingTimeout))
        },
        Event::SocketReceive(frame) => match frame {
            TokuFrame::Hello(_) | TokuFrame::HelloAck(_) => (
                s,
                Err(
                    TokuError::InvalidOpcode {
                        actual: crate::wire::opcode_of(frame@),
                        expected: None,
                    },
                ),
            ),
            TokuFrame::Ping(ping) => (
                s,
                Ok(
                    EventOutcome::Emit(
                        TokuFrame::Pong(
                            Pong { flags: ping.flags, sequence_id: ping.sequence_id },
                        ),
                    ),
                ),
            ),
            TokuFrame::Pong(_) => (
                EventHandler { pong_received: true, id_sequence: s.id_sequence },
                Ok(EventOutcome::Nothing),
            ),
            TokuFrame::Request(request) => (
                s,
                Ok(EventOutcome::Delegate(DelegatedFrame::Request(request))),
            ),
            TokuFrame::Response(response) => (
                s,
                Ok(EventOutcome::Delegate(DelegatedFrame::Response(response))),
            ),
            TokuFrame::Push(push) => (s, Ok(EventOutcome::Delegate(DelegatedFrame::Push(push)))),
            TokuFrame::GoAway(go_away) => (s, Err(TokuError::ToldToGoAway { go_away })),
            TokuFrame::Error(error) => (
                s,
                Ok(EventOutcome::Delegate(DelegatedFrame::Error(error))),
            ),
        },
        Event::InternalEvent(internal_event) => (s, Ok(EventOutcome::Internal(internal_event))),
        Event::ResponseComplete(result) => match result {
            Ok(response) => (s, Ok(EventOutcome::Emit(TokuFrame::Response(response)))),
            Err((message, sequence_id)) => (
                s,
                Ok(
                    EventOutcome::Emit(
                        TokuFrame::Error(
                            Error {
                                flags: 0,
                                sequence_id,
                                code: TokuErrorCode::InternalServerError.spec_u16(),
                                payload: message,
                            },
                        ),
                    ),
                ),
            ),
        },
        Event::Close => (s, Err(TokuError::ConnectionCloseRequested)),
    }
}

impl EventHandler {
    /// A fresh handler: no ping outstanding, ids starting at 1.
    pub fn new() -> (s: Self)
        ensures
            s.pong_received,
            s.id_sequence.next_id == 1,
    {
        EventHandler { pong_received: true, id_sequence: IdSequence::new() }
    }

    /// Handles one event of the connection: performs exactly the transition
    /// that [`event_step`] describes.
    pub fn handle_event<I>(&mut self, event: Event<I>) -> (r: Result<EventOutcome<I>, TokuError>)
        requires
            old(self).id_sequence.next_id < u32::MAX,
        ensures
            *final(self) == event_step(*old(self), event).0,
            r == event_step(*old(self), event).1,
    {
        match event {
            Event::Ping => self.send_ping(),
            Event::SocketReceive(frame) => self.handle_frame(frame),
            Event::InternalEvent(internal_event) => self.handle_internal_event(internal_event),
            Event::ResponseComplete(result) => self.handle_response_complete(result),
            Event::Close => self.handle_close(),
        }
    }

    /// Handles the ping timer: emits a new ping if the last one was
    /// answered, and fails with `PingTimeout` otherwise.
    fn send_ping<I>(&mut self) -> (r: Result<EventOutcome<I>, TokuError>)
        requires
            old(self).id_sequence.next_id < u32::MAX,
        ensures
            *final(self) == event_step::<I>(*old(self), Event::Ping).0,
            r == event_step::<I>(*old(self), Event::Ping).1,
    {
        if self.pong_received {
            let sequence_id = self.id_sequence.next();
            self.pong_received = false;
            Ok(EventOutcome::Emit(TokuFrame::Ping(Ping { flags: 0, sequence_id })))
        } else {
            Err(TokuError::PingTimeout)
        }
    }

    /// Handles a frame received from the socket, delegating the
    /// policy-specific ones.
    fn handle_frame<I>(&mut self, frame: TokuFrame) -> (r: Result<EventOutcome<I>, TokuError>)
        ensures
            *final(self) == event_step::<I>(*old(self), Event::SocketReceive(frame)).0,
            r == event_step::<I>(*old(self), Event::SocketReceive(frame)).1,
    {
        match frame {
            TokuFrame::Hello(_) | TokuFrame::HelloAck(_) => self.handle_handshake_frame(frame),
            TokuFrame::Ping(ping) => self.handle_ping_frame(ping),
            TokuFrame::Pong(pong) => self.handle_pong_frame(pong),
            TokuFrame::Request(request) => Ok(
                EventOutcome::Delegate(DelegatedFrame::Request(request)),
            ),
            TokuFrame::Response(response) => Ok(
                EventOutcome::Delegate(DelegatedFrame::Response(response)),
            ),
            TokuFrame::Push(push) => Ok(EventOutcome::Delegate(DelegatedFrame::Push(push))),
            TokuFrame::GoAway(go_away) => Err(TokuError::ToldToGoAway { go_away }),
            TokuFrame::Error(error) => Ok(EventOutcome::Delegate(DelegatedFrame::Error(error))),
        }
    }

    /// A handshake frame after the handshake is complete is an error.
    fn handle_handshake_frame<I>(&mut self, frame: TokuFrame) -> (r: Result<
        EventOutcome<I>,
        TokuError,
    >)
        requires
            frame is Hello || frame is HelloAck,
        ensures
            *final(self) == *old(self),
            r == Err::<EventOutcome<I>, TokuError>(
                TokuError::InvalidOpcode { actual: crate::wire::opcode_of(frame@), expected: None },
            ),
    {
        let actual = frame.opcode();
        Err(TokuError::InvalidOpcode { actual, expected: None })
    }

    /// Answers a ping with a pong carrying the same sequence id and flags.
    fn handle_ping_frame<I>(&mut self, ping: Ping) -> (r: Result<EventOutcome<I>, TokuError>)
        ensures
            *final(self) == *old(self),
            r == Ok::<EventOutcome<I>, TokuError>(
                EventOutcome::Emit(
                    TokuFrame::Pong((Pong { flags: ping.flags, sequence_id: ping.sequence_id })),
                ),
            ),
    {
        Ok(
            EventOutcome::Emit(
                TokuFrame::Pong(Pong { flags: ping.flags, sequence_id: ping.sequence_id }),
            ),
        )
    }

    /// Records that the outstanding ping was answered.
    fn handle_pong_frame<I>(&mut self, _pong: Pong) -> (r: Result<EventOutcome<I>, TokuError>)
        ensures
            final(self).pong_received,
            final(self).id_sequence == old(self).id_sequence,
            r == Ok::<EventOutcome<I>, TokuError>(EventOutcome::Nothing),
    {
        self.pong_received = true;
        Ok(EventOutcome::Nothing)
    }

    /// A spawned handler completed: emit its response, or an `Error` frame
    /// with the internal-server-error code and the diagnostic message.
    fn handle_response_complete<I>(&mut self, result: Result<
        crate::frames::Response,
        (Vec<u8>, u32),
    >) -> (r: Result<EventOutcome<I>, TokuError>)
        ensures
            *final(self) == event_step::<I>(*old(self), Event::ResponseComplete(result)).0,
            r == event_step::<I>(*old(self), Event::ResponseComplete(result)).1,
    {
        match result {
            Ok(response) => Ok(EventOutcome::Emit(TokuFrame::Response(response))),
            Err((message, sequence_id)) => {
                let code = TokuErrorCode::InternalServerError.as_u16();
                let error = Error { flags: 0, sequence_id, code, payload: message };
                Ok(EventOutcome::Emit(TokuFrame::Error(error)))
            }
        }
    }

    /// An internal event is handed to the endpoint policy unchanged.
    fn handle_internal_event<I>(&mut self, internal_event: I) -> (r: Result<
        EventOutcome<I>,
        TokuError,
    >)
        ensures
            *final(self) == *old(self),
            r == Ok::<EventOutcome<I>, TokuError>(EventOutcome::Internal(internal_event)),
    {
        Ok(EventOutcome::Internal(internal_event))
    }

    /// A close request terminates the connection.
    fn handle_close<I>(&mut self) -> (r: Result<EventOutcome<I>, TokuError>)
        ensures
            *final(self) == *old(self),
            r == Err::<EventOutcome<I>, TokuError>(TokuError::ConnectionCloseRequested),
    {
        Err(TokuError::ConnectionCloseRequested)
    }
}

/// Ping discipline: at most one ping is outstanding at any instant. While
/// one is outstanding (`!pong_received`) the timer does not emit a second
/// ping but terminates with `PingTimeout`, and only the matching pong
/// clears the outstanding bit.
pub proof fn lemma_ping_discipline<I>(s: EventHandler, e: Event<I>)
    ensures
        s.pong_received ==> event_step::<I>(s, Event::Ping) == (
            (
                EventHandler {
                    pong_received: false,
                    id_sequence: IdSequence { next_id: (s.id_sequence.next_id + 1) as u32 },
                },
                Ok::<EventOutcome<I>, TokuError>(
                    EventOutcome::Emit(
                        TokuFrame::Ping((Ping { flags: 0, sequence_id: s.id_sequence.next_id })),
                    ),
                ),
            )
        ),
        !s.pong_received ==> event_step::<I>(s, Event::Ping).1 == Err::<
            EventOutcome<I>,
            TokuError,
        >(TokuError::PingTimeout),
        (!s.pong_received && event_step(s, e).0.pong_received) ==> (e matches Event::SocketReceive(
            f,
        ) && f is Pong),
{
}

/// The frames the loop writes, in order, while it runs the given events
/// from the given state: at most one frame per event, and the run stops at
/// the first terminal error.
pub open spec fn emissions<I>(s: EventHandler, events: Seq<Event<I>>) -> Seq<TokuFrame>
    decreases events.len(),
{
    if events.len() == 0 {
        Seq::empty()
    } else {
        let (s2, r) = event_step(s, events[0]);
        match r {
            Ok(out) => match out {
                EventOutcome::Emit(f) => seq![f] + emissions(s2, events.drop_first()),
                _ => emissions(s2, events.drop_first()),
            },
            Err(_) => Seq::empty(),
        }
    }
}

/// Ordering: what the loop has put on the wire after any prefix of the
/// events is a prefix of what it puts on the wire for the whole run, so
/// outbound frames appear in exactly the loop's emission order.
pub proof fn lemma_emission_order<I>(s: EventHandler, events: Seq<Event<I>>, k: int)
    requires
        0 <= k <= events.len(),
    ensures
        emissions(s, events.take(k)).is_prefix_of(emissions(s, events)),
    decreases events.len(),
{
    if k == 0 {
        assert(events.take(0) =~= Seq::<Event<I>>::empty());
    } else {
        let (s2, r) = event_step(s, events[0]);
        let p = events.take(k);
        assert(p[0] == events[0]);
        assert(p.drop_first() =~= events.drop_first().take(k - 1));
        lemma_emission_order(s2, events.drop_first(), k - 1);
    }
}

} // verus!
