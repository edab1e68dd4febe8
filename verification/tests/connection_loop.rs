use bytes::BytesMut;

use toku::client::{Client, ClientConnectionHandler, InternalEvent};
use toku::codec::{decode, encode};
use toku::connection::{ConnectionState, Event, LifecycleEvent};
use toku::connection_handler::{ConnectionHandler, DelegatedAction, ServerConfig};
use toku::error::TokuError;
use toku::event_handler::EventHandler;
use toku::frames::{Ping, Pong, Response, TokuFrame};
use toku::handler::{DelegatedFrame, EventOutcome, Ready};
use toku::waiter::{Waiter, WaiterMap};

const MAX: u32 = 1_000_000;

fn names(list: &[&[u8]]) -> Vec<Vec<u8>> {
    list.iter().map(|s| s.to_vec()).collect()
}

type NoInternal = ();

#[test]
fn ping_timer_emits_one_ping_then_times_out() {
    let mut handler = EventHandler::new();
    match handler.handle_event::<NoInternal>(Event::Ping).unwrap() {
        EventOutcome::Emit(TokuFrame::Ping(p)) => {
            assert_eq!(p.sequence_id, 1);
            assert_eq!(p.flags, 0);
        }
        _ => panic!("first timer tick must emit a ping"),
    }
    // The second tick fires while the ping is still outstanding.
    let e = handler.handle_event::<NoInternal>(Event::Ping).unwrap_err();
    assert_eq!(e, TokuError::PingTimeout);
    assert_eq!(e.code().as_u16(), 6);
}

#[test]
fn pong_clears_the_outstanding_ping() {
    let mut handler = EventHandler::new();
    handler.handle_event::<NoInternal>(Event::Ping).unwrap();
    let outcome = handler
        .handle_event::<NoInternal>(Event::SocketReceive(TokuFrame::Pong(Pong {
            flags: 0,
            sequence_id: 1,
        })))
        .unwrap();
    assert!(matches!(outcome, EventOutcome::Nothing));
    match handler.handle_event::<NoInternal>(Event::Ping).unwrap() {
        EventOutcome::Emit(TokuFrame::Ping(p)) => assert_eq!(p.sequence_id, 2),
        _ => panic!("after a pong the next tick pings again"),
    }
}

#[test]
fn incoming_ping_is_answered_with_matching_pong() {
    let mut handler = EventHandler::new();
    let outcome = handler
        .handle_event::<NoInternal>(Event::SocketReceive(TokuFrame::Ping(Ping {
            flags: 3,
            sequence_id: 9,
        })))
        .unwrap();
    match outcome {
        EventOutcome::Emit(TokuFrame::Pong(p)) => {
            assert_eq!(p.flags, 3);
            assert_eq!(p.sequence_id, 9);
        }
        _ => panic!("a ping must be answered with a pong"),
    }
}

#[test]
fn handshake_frame_after_ready_is_an_error() {
    let mut handler = EventHandler::new();
    let frame = TokuFrame::Hello(toku::frames::Hello {
        flags: 0,
        version: 1,
        encodings: names(&[b"msgpack"]),
        compressions: names(&[]),
    });
    let e = handler.handle_event::<NoInternal>(Event::SocketReceive(frame)).unwrap_err();
    assert_eq!(e, TokuError::InvalidOpcode { actual: 1, expected: None });
}

#[test]
fn close_event_requests_the_close() {
    let mut handler = EventHandler::new();
    let e = handler.handle_event::<NoInternal>(Event::Close).unwrap_err();
    assert_eq!(e, TokuError::ConnectionCloseRequested);
    assert_eq!(e.code().as_u16(), 0);
}

#[test]
fn failed_completion_becomes_internal_server_error_frame() {
    let mut handler = EventHandler::new();
    let outcome = handler
        .handle_event::<NoInternal>(Event::ResponseComplete(Err((b"boom".to_vec(), 12))))
        .unwrap();
    match outcome {
        EventOutcome::Emit(TokuFrame::Error(e)) => {
            assert_eq!(e.sequence_id, 12);
            assert_eq!(e.code, 7);
            assert_eq!(e.payload, b"boom".to_vec());
        }
        _ => panic!("a failed completion must emit an error frame"),
    }
}

#[test]
fn waiters_resolve_at_most_once() {
    let mut waiters = WaiterMap::new();
    waiters.insert(4, Waiter { token: 40, deadline_ms: 100 });
    waiters.insert(5, Waiter { token: 50, deadline_ms: 100 });
    assert_eq!(waiters.len(), 2);
    let w = waiters.resolve(4).expect("registered waiter resolves");
    assert_eq!(w.token, 40);
    assert!(waiters.resolve(4).is_none(), "a waiter resolves at most once");
    assert_eq!(waiters.len(), 1);
    assert!(waiters.resolve(99).is_none(), "unmatched correlations are dropped");
}

#[test]
fn client_policy_correlates_responses_with_waiters() {
    let mut policy = ClientConnectionHandler::new();
    let mut ids = toku::id_sequence::IdSequence::new();
    let waiter = Waiter { token: 77, deadline_ms: 1000 };
    let frame = policy
        .handle_internal_event(
            InternalEvent::Request { payload: b"q".to_vec(), waiter },
            &mut ids,
        )
        .expect("a request emits a frame");
    let sequence_id = match frame {
        TokuFrame::Request(rq) => {
            assert_eq!(rq.payload, b"q".to_vec());
            rq.sequence_id
        }
        _ => panic!("a request event emits a request frame"),
    };
    assert_eq!(sequence_id, 1);

    let response = Response { flags: 0, sequence_id, payload: b"a".to_vec() };
    let (resolved, outcome) = policy
        .handle_frame(DelegatedFrame::Response(response))
        .expect("the response correlates");
    assert_eq!(resolved.token, 77);
    assert_eq!(outcome.unwrap(), b"a".to_vec());

    // The same correlation a second time finds no waiter.
    let response = Response { flags: 0, sequence_id, payload: b"a".to_vec() };
    assert!(policy.handle_frame(DelegatedFrame::Response(response)).is_none());
}

#[test]
fn server_policy_classifies_delegated_frames() {
    let mut server = ConnectionHandler::new(ServerConfig {
        max_payload_size: MAX,
        ping_interval_ms: 5000,
        handshake_timeout_ms: 5000,
        supported_encodings: names(&[b"msgpack"]),
    });
    assert_eq!(server.max_payload_size(), MAX);
    let action = server.handle_frame(DelegatedFrame::Request(toku::frames::Request {
        flags: 0,
        sequence_id: 3,
        payload: b"job".to_vec(),
    }));
    match action {
        DelegatedAction::RespondTo { sequence_id, payload } => {
            assert_eq!(sequence_id, 3);
            assert_eq!(payload, b"job".to_vec());
        }
        _ => panic!("a request spawns the application handler"),
    }
    let action = server.handle_frame(DelegatedFrame::Response(Response {
        flags: 0,
        sequence_id: 3,
        payload: vec![],
    }));
    assert!(matches!(action, DelegatedAction::Ignore));
}

#[test]
fn client_lifecycle_gates_sends() {
    let mut client = Client::new(5000);
    assert!(!client.is_ready());
    assert!(!client.is_closed());
    let waiter = Waiter { token: 1, deadline_ms: 1 };
    assert_eq!(
        client.prepare_request(b"x".to_vec(), waiter).unwrap_err(),
        TokuError::NotReady
    );
    assert_eq!(client.encoding().unwrap_err(), TokuError::NotReady);

    client.advance_state(LifecycleEvent::UpgradeComplete);
    assert_eq!(client.state, ConnectionState::Handshaking);
    client.handshake_completed(Ready { ping_interval_ms: 5000, encoding: b"msgpack".to_vec() });
    assert!(client.is_ready());
    assert_eq!(client.encoding().unwrap(), b"msgpack".to_vec());
    assert!(client.prepare_request(b"x".to_vec(), waiter).is_ok());
    assert!(client.prepare_push(b"x".to_vec()).is_ok());

    client.advance_state(LifecycleEvent::CloseStarted);
    client.advance_state(LifecycleEvent::CloseFinished);
    assert!(client.is_closed());
    assert!(!client.is_ready(), "readiness never comes back");
    assert_eq!(
        client.prepare_request(b"x".to_vec(), waiter).unwrap_err(),
        TokuError::ConnectionClosed
    );
    assert_eq!(
        client.prepare_push(b"x".to_vec()).unwrap_err(),
        TokuError::ConnectionClosed
    );

    // Closed is absorbing.
    client.advance_state(LifecycleEvent::HandshakeComplete);
    assert!(client.is_closed());
}

#[test]
fn request_timeout_leaves_the_connection_ready() {
    // A waiter missing its deadline resolves with RequestTimeout on the
    // caller's side; the connection itself stays ready and a later request
    // is admitted and correlated as usual.
    let mut client = Client::new(100);
    client.advance_state(LifecycleEvent::UpgradeComplete);
    client.handshake_completed(Ready { ping_interval_ms: 5000, encoding: b"msgpack".to_vec() });

    let mut policy = ClientConnectionHandler::new();
    let mut ids = toku::id_sequence::IdSequence::new();
    let timed_out = Waiter { token: 1, deadline_ms: 100 };
    policy
        .handle_internal_event(
            InternalEvent::Request { payload: b"slow".to_vec(), waiter: timed_out },
            &mut ids,
        )
        .unwrap();

    assert!(client.is_ready(), "a request timeout does not close the connection");
    let fast = Waiter { token: 2, deadline_ms: 900 };
    let event = client.prepare_request(b"fast".to_vec(), fast).unwrap();
    let frame = policy.handle_internal_event(event, &mut ids).unwrap();
    let sequence_id = match frame {
        TokuFrame::Request(rq) => rq.sequence_id,
        _ => panic!("a request frame is emitted"),
    };
    assert_eq!(sequence_id, 2);
    let response = Response { flags: 0, sequence_id, payload: b"ok".to_vec() };
    let (resolved, outcome) = policy.handle_frame(DelegatedFrame::Response(response)).unwrap();
    assert_eq!(resolved.token, 2);
    assert_eq!(outcome.unwrap(), b"ok".to_vec());
}

#[test]
fn echo_request_end_to_end_through_the_codec() {
    // Client side: admit a request, emit its frame, and put it on the wire.
    let mut client = Client::new(5000);
    client.advance_state(LifecycleEvent::UpgradeComplete);
    client.handshake_completed(Ready { ping_interval_ms: 5000, encoding: b"msgpack".to_vec() });
    let mut client_policy = ClientConnectionHandler::new();
    let mut client_loop = EventHandler::new();
    let mut ids = toku::id_sequence::IdSequence::new();

    let waiter = Waiter { token: 9, deadline_ms: 5000 };
    let event = client.prepare_request(b"hello world".to_vec(), waiter).unwrap();
    let frame = client_policy.handle_internal_event(event, &mut ids).unwrap();
    let mut wire = BytesMut::new();
    encode(frame, &mut wire, MAX).unwrap();

    // Server side: read the frame, delegate it, run the echo handler, and
    // emit the completed response.
    let mut server_loop = EventHandler::new();
    let mut server = ConnectionHandler::new(ServerConfig {
        max_payload_size: MAX,
        ping_interval_ms: 5000,
        handshake_timeout_ms: 5000,
        supported_encodings: names(&[b"msgpack", b"identity"]),
    });
    let received = decode(&mut wire, MAX).unwrap().unwrap();
    let outcome = server_loop.handle_event::<NoInternal>(Event::SocketReceive(received)).unwrap();
    let delegated = match outcome {
        EventOutcome::Delegate(d) => d,
        _ => panic!("a request is delegated to the server policy"),
    };
    let (sequence_id, request_payload) = match server.handle_frame(delegated) {
        DelegatedAction::RespondTo { sequence_id, payload } => (sequence_id, payload),
        _ => panic!("a request asks for a response"),
    };
    // The application handler echoes the payload verbatim.
    let response = ConnectionHandler::complete_request(sequence_id, request_payload);
    let outcome = server_loop
        .handle_event::<NoInternal>(Event::ResponseComplete(Ok(response)))
        .unwrap();
    let response_frame = match outcome {
        EventOutcome::Emit(f) => f,
        _ => panic!("a completed response is emitted"),
    };
    let mut wire_back = BytesMut::new();
    encode(response_frame, &mut wire_back, MAX).unwrap();

    // Client side again: the response correlates with the waiter and hands
    // back the payload unchanged.
    let received = decode(&mut wire_back, MAX).unwrap().unwrap();
    let outcome = client_loop.handle_event::<NoInternal>(Event::SocketReceive(received)).unwrap();
    let delegated = match outcome {
        EventOutcome::Delegate(d) => d,
        _ => panic!("a response is delegated to the client policy"),
    };
    let (resolved, outcome) = client_policy.handle_frame(delegated).unwrap();
    assert_eq!(resolved.token, 9);
    assert_eq!(outcome.unwrap(), b"hello world".to_vec());
}

#[test]
fn go_away_terminates_with_told_to_go_away() {
    let mut handler = EventHandler::new();
    let go_away = toku::frames::GoAway { flags: 0, code: 6, payload: b"bye".to_vec() };
    let e = handler
        .handle_event::<NoInternal>(Event::SocketReceive(TokuFrame::GoAway(go_away.clone())))
        .unwrap_err();
    assert_eq!(e, TokuError::ToldToGoAway { go_away });
}

#[test]
fn error_frame_resolves_waiter_with_server_error() {
    let mut policy = ClientConnectionHandler::new();
    let mut ids = toku::id_sequence::IdSequence::new();
    let waiter = Waiter { token: 5, deadline_ms: 100 };
    policy
        .handle_internal_event(
            InternalEvent::Request { payload: b"q".to_vec(), waiter },
            &mut ids,
        )
        .unwrap();
    let error = toku::frames::Error {
        flags: 0,
        sequence_id: 1,
        code: 7,
        payload: b"handler died".to_vec(),
    };
    let (resolved, outcome) = policy.handle_frame(DelegatedFrame::Error(error)).unwrap();
    assert_eq!(resolved.token, 5);
    assert_eq!(
        outcome.unwrap_err(),
        TokuError::InternalServerError { message: b"handler died".to_vec() }
    );
}

#[test]
fn ready_client_without_encoding_reports_no_client_encoding() {
    let mut client = Client::new(5000);
    client.advance_state(LifecycleEvent::UpgradeComplete);
    client.advance_state(LifecycleEvent::HandshakeComplete);
    assert!(client.is_ready());
    assert_eq!(client.encoding().unwrap_err(), TokuError::NoClientEncoding);
}
