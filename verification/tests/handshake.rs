use toku::client::{handle_hello_ack, make_hello};
use toku::connection_handler::{go_away_for, ConnectionHandler};
use toku::error::{TokuError, TokuErrorCode};
use toku::frames::{Hello, HelloAck, Ping, TokuFrame};
use toku::VERSION;

fn names(list: &[&[u8]]) -> Vec<Vec<u8>> {
    list.iter().map(|s| s.to_vec()).collect()
}

#[test]
fn negotiation_picks_first_client_listed_match() {
    let client = names(&[b"a", b"b", b"c"]);
    let server = names(&[b"c", b"b"]);
    let chosen = ConnectionHandler::negotiate_encoding(&client, &server).unwrap();
    assert_eq!(chosen, b"b".to_vec());

    let hello = Hello { flags: 0, version: VERSION, encodings: client, compressions: names(&[]) };
    let (ready, ack) = ConnectionHandler::handle_handshake_hello(hello, 5000, &server).unwrap();
    assert_eq!(ack.encoding, b"b".to_vec());
    assert_eq!(ack.compression, None);
    assert_eq!(ack.ping_interval_ms, 5000);
    assert_eq!(ready.encoding, b"b".to_vec());
    assert_eq!(ready.ping_interval_ms, 5000);
}

#[test]
fn no_common_encoding_fails_with_code_3() {
    let client = names(&[b"x"]);
    let server = names(&[b"y"]);
    let e = ConnectionHandler::negotiate_encoding(&client, &server).unwrap_err();
    assert_eq!(e, TokuError::NoCommonEncoding);
    assert_eq!(e.code(), TokuErrorCode::NoCommonEncoding);
    assert_eq!(e.code().as_u16(), 3);
    assert_eq!(go_away_for(&e).code, 3);
}

#[test]
fn unsupported_version_fails_with_code_2() {
    let hello = Hello {
        flags: 0,
        version: VERSION + 1,
        encodings: names(&[b"msgpack"]),
        compressions: names(&[]),
    };
    let e = ConnectionHandler::handle_handshake_hello(hello, 5000, &names(&[b"msgpack"]))
        .unwrap_err();
    assert_eq!(e, TokuError::UnsupportedVersion { expected: VERSION, actual: VERSION + 1 });
    assert_eq!(e.code().as_u16(), 2);
    assert_eq!(go_away_for(&e).code, 2);
}

#[test]
fn handshake_rejects_non_hello_frames() {
    let frame = TokuFrame::Ping(Ping { flags: 0, sequence_id: 1 });
    let e = ConnectionHandler::handle_handshake_frame(frame, 5000, &names(&[b"msgpack"]))
        .unwrap_err();
    assert_eq!(e, TokuError::InvalidOpcode { actual: 3, expected: Some(1) });
}

#[test]
fn make_hello_offers_supported_encodings_and_no_compressions() {
    let hello = make_hello(&names(&[b"msgpack", b"identity"]));
    assert_eq!(hello.version, VERSION);
    assert_eq!(hello.flags, 0);
    assert_eq!(hello.encodings, names(&[b"msgpack", b"identity"]));
    assert!(hello.compressions.is_empty());
}

#[test]
fn client_accepts_supported_ack() {
    let ack = HelloAck {
        flags: 0,
        ping_interval_ms: 700,
        encoding: b"identity".to_vec(),
        compression: None,
    };
    let ready = handle_hello_ack(ack, &names(&[b"msgpack", b"identity"])).unwrap();
    assert_eq!(ready.encoding, b"identity".to_vec());
    assert_eq!(ready.ping_interval_ms, 700);
}

#[test]
fn client_rejects_unoffered_encoding() {
    let ack = HelloAck {
        flags: 0,
        ping_interval_ms: 700,
        encoding: b"json".to_vec(),
        compression: None,
    };
    let e = handle_hello_ack(ack, &names(&[b"msgpack"])).unwrap_err();
    assert_eq!(e, TokuError::InvalidEncoding);
    assert_eq!(e.code().as_u16(), 4);
}

#[test]
fn client_rejects_unoffered_compression() {
    let ack = HelloAck {
        flags: 0,
        ping_interval_ms: 700,
        encoding: b"msgpack".to_vec(),
        compression: Some(b"gzip".to_vec()),
    };
    let e = handle_hello_ack(ack, &names(&[b"msgpack"])).unwrap_err();
    assert_eq!(e, TokuError::InvalidCompression);
    assert_eq!(e.code().as_u16(), 5);
}

#[test]
fn error_code_mapping_is_exact() {
    assert_eq!(TokuError::ConnectionCloseRequested.code().as_u16(), 0);
    assert_eq!(
        TokuError::InvalidOpcode { actual: 11, expected: None }.code().as_u16(),
        1
    );
    assert_eq!(
        TokuError::UnsupportedVersion { expected: 1, actual: 3 }.code().as_u16(),
        2
    );
    assert_eq!(TokuError::NoCommonEncoding.code().as_u16(), 3);
    assert_eq!(TokuError::InvalidEncoding.code().as_u16(), 4);
    assert_eq!(TokuError::InvalidCompression.code().as_u16(), 5);
    assert_eq!(TokuError::PingTimeout.code().as_u16(), 6);
    assert_eq!(TokuError::TcpStreamClosed.code().as_u16(), 7);
    assert_eq!(TokuError::RequestTimeout.code().as_u16(), 7);
}
