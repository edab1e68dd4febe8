use bytes::BytesMut;

use toku::codec::{decode, encode};
use toku::error::ProtocolError;
use toku::frames::{Error, GoAway, Hello, HelloAck, Ping, Pong, Push, Request, Response, TokuFrame};

const MAX: u32 = 1_000_000;

fn names(list: &[&[u8]]) -> Vec<Vec<u8>> {
    list.iter().map(|s| s.to_vec()).collect()
}

fn all_frames() -> Vec<TokuFrame> {
    vec![
        TokuFrame::Hello(Hello {
            flags: 0,
            version: 1,
            encodings: names(&[b"msgpack", b"identity"]),
            compressions: names(&[]),
        }),
        TokuFrame::HelloAck(HelloAck {
            flags: 1,
            ping_interval_ms: 5000,
            encoding: b"msgpack".to_vec(),
            compression: None,
        }),
        TokuFrame::HelloAck(HelloAck {
            flags: 0,
            ping_interval_ms: 1,
            encoding: b"identity".to_vec(),
            compression: Some(b"gzip".to_vec()),
        }),
        TokuFrame::Ping(Ping { flags: 0, sequence_id: 1 }),
        TokuFrame::Pong(Pong { flags: 2, sequence_id: 0xDEADBEEF }),
        TokuFrame::Request(Request { flags: 0, sequence_id: 7, payload: b"abc".to_vec() }),
        TokuFrame::Response(Response { flags: 0, sequence_id: 7, payload: vec![] }),
        TokuFrame::Push(Push { flags: 0, payload: b"p".to_vec() }),
        TokuFrame::GoAway(GoAway { flags: 0, code: 3, payload: b"bye".to_vec() }),
        TokuFrame::Error(Error { flags: 0, sequence_id: 9, code: 7, payload: b"oops".to_vec() }),
    ]
}

#[test]
fn round_trip_every_frame() {
    for frame in all_frames() {
        let mut buf = BytesMut::new();
        encode(frame.clone(), &mut buf, MAX).expect("encode");
        let decoded = decode(&mut buf, MAX).expect("decode").expect("complete");
        assert_eq!(decoded, frame);
        assert_eq!(buf.len(), 0);
    }
}

#[test]
fn decode_is_lazy_on_every_strict_prefix() {
    for frame in all_frames() {
        let mut buf = BytesMut::new();
        encode(frame, &mut buf, MAX).expect("encode");
        let wire: Vec<u8> = buf[..].to_vec();
        for k in 0..wire.len() {
            let mut partial = BytesMut::new();
            partial.extend_from_slice(&wire[..k]);
            let r = decode(&mut partial, MAX).expect("no error on prefix");
            assert!(r.is_none(), "prefix of length {} decoded", k);
            assert_eq!(&partial[..], &wire[..k], "prefix was consumed");
        }
    }
}

#[test]
fn two_frames_in_one_buffer_decode_in_order() {
    let ping = TokuFrame::Ping(Ping { flags: 0, sequence_id: 1 });
    let push = TokuFrame::Push(Push { flags: 0, payload: b"xy".to_vec() });
    let mut buf = BytesMut::new();
    encode(ping.clone(), &mut buf, MAX).unwrap();
    encode(push.clone(), &mut buf, MAX).unwrap();
    assert_eq!(decode(&mut buf, MAX).unwrap().unwrap(), ping);
    assert_eq!(decode(&mut buf, MAX).unwrap().unwrap(), push);
    assert_eq!(buf.len(), 0);
}

#[test]
fn ping_wire_form_is_exact() {
    let mut buf = BytesMut::new();
    encode(TokuFrame::Ping(Ping { flags: 1, sequence_id: 2 }), &mut buf, MAX).unwrap();
    assert_eq!(&buf[..], &[3, 1, 0, 0, 0, 2]);
}

#[test]
fn hello_wire_form_is_exact() {
    let hello = Hello {
        flags: 0,
        version: 1,
        encodings: names(&[b"msgpack", b"json"]),
        compressions: names(&[]),
    };
    let mut buf = BytesMut::new();
    encode(TokuFrame::Hello(hello), &mut buf, MAX).unwrap();
    let mut expected = vec![1u8, 0, 1, 0, 0, 0, 13];
    expected.extend_from_slice(b"msgpack,json|");
    assert_eq!(&buf[..], &expected[..]);
}

#[test]
fn error_wire_form_is_exact() {
    let error = Error { flags: 0, sequence_id: 7, code: 7, payload: b"x".to_vec() };
    let mut buf = BytesMut::new();
    encode(TokuFrame::Error(error), &mut buf, MAX).unwrap();
    assert_eq!(&buf[..], &[9, 0, 0, 0, 0, 7, 0, 7, 0, 0, 0, 1, b'x']);
}

#[test]
fn go_away_wire_form_is_exact() {
    let go_away = GoAway { flags: 0, code: 2, payload: vec![] };
    let mut buf = BytesMut::new();
    encode(TokuFrame::GoAway(go_away), &mut buf, MAX).unwrap();
    assert_eq!(&buf[..], &[8, 0, 0, 2, 0, 0, 0, 0]);
}

#[test]
fn unknown_opcode_is_rejected() {
    let mut buf = BytesMut::new();
    buf.extend_from_slice(&[42, 0, 0, 0, 0, 0]);
    let e = decode(&mut buf, MAX).unwrap_err();
    assert_eq!(e, ProtocolError::InvalidOpcode { actual: 42, expected: None });
}

#[test]
fn oversized_frame_is_rejected_once_complete() {
    let mut big = BytesMut::new();
    let payload = vec![7u8; 100];
    encode(
        TokuFrame::Push(Push { flags: 0, payload: payload.clone() }),
        &mut big,
        MAX,
    )
    .unwrap();
    let wire: Vec<u8> = big[..].to_vec();

    // With only part of the oversized frame buffered the decoder still waits.
    let mut partial = BytesMut::new();
    partial.extend_from_slice(&wire[..wire.len() - 1]);
    assert!(decode(&mut partial, 10).unwrap().is_none());

    // Once the whole frame is present it is rejected.
    let mut full = BytesMut::new();
    full.extend_from_slice(&wire);
    assert_eq!(decode(&mut full, 10).unwrap_err(), ProtocolError::FrameTooLarge);
}

#[test]
fn oversized_payload_is_never_encoded() {
    let mut buf = BytesMut::new();
    let e = encode(
        TokuFrame::Push(Push { flags: 0, payload: vec![0u8; 11] }),
        &mut buf,
        10,
    )
    .unwrap_err();
    assert_eq!(e, ProtocolError::FrameTooLarge);
    assert_eq!(buf.len(), 0);
}

fn hello_frame_with_payload(payload: &[u8]) -> BytesMut {
    let mut buf = BytesMut::new();
    buf.extend_from_slice(&[1, 0, 1]);
    buf.extend_from_slice(&(payload.len() as u32).to_be_bytes());
    buf.extend_from_slice(payload);
    buf
}

#[test]
fn hello_payload_without_separator_is_invalid() {
    let mut buf = hello_frame_with_payload(b"msgpack");
    assert_eq!(decode(&mut buf, MAX).unwrap_err(), ProtocolError::InvalidPayload);
}

#[test]
fn hello_payload_with_two_separators_is_invalid() {
    let mut buf = hello_frame_with_payload(b"a|b|c");
    assert_eq!(decode(&mut buf, MAX).unwrap_err(), ProtocolError::InvalidPayload);
}

#[test]
fn hello_payload_with_bad_name_byte_is_invalid() {
    let mut buf = hello_frame_with_payload(b"msg pack|");
    assert_eq!(decode(&mut buf, MAX).unwrap_err(), ProtocolError::InvalidPayload);
}

#[test]
fn hello_trailing_empty_list_element_is_dropped() {
    let mut buf = hello_frame_with_payload(b"msgpack,|gzip");
    let decoded = decode(&mut buf, MAX).unwrap().unwrap();
    match decoded {
        TokuFrame::Hello(h) => {
            assert_eq!(h.encodings, names(&[b"msgpack"]));
            assert_eq!(h.compressions, names(&[b"gzip"]));
        }
        other => panic!("decoded {:?}", other),
    }
}

#[test]
fn hello_ack_empty_compression_is_none() {
    let ack = HelloAck {
        flags: 0,
        ping_interval_ms: 5000,
        encoding: b"msgpack".to_vec(),
        compression: None,
    };
    let mut buf = BytesMut::new();
    encode(TokuFrame::HelloAck(ack.clone()), &mut buf, MAX).unwrap();
    let mut expected = vec![2u8, 0, 0, 0, 0x13, 0x88, 0, 0, 0, 8];
    expected.extend_from_slice(b"msgpack|");
    assert_eq!(&buf[..], &expected[..]);
    let decoded = decode(&mut buf, MAX).unwrap().unwrap();
    assert_eq!(decoded, TokuFrame::HelloAck(ack));
}

#[test]
fn opcode_of_each_frame() {
    let opcodes: Vec<u8> = all_frames().iter().map(|f| f.opcode()).collect();
    assert_eq!(opcodes, vec![1, 2, 2, 3, 4, 5, 6, 7, 8, 9]);
}
