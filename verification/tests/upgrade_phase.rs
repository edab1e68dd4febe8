use bytes::BytesMut;

use toku::error::TokuError;
use toku::upgrade::{decode_upgrade, encode_upgrade, UpgradeFrame};

#[test]
fn upgrade_round_trip_request() {
    let mut buf = BytesMut::new();
    encode_upgrade(UpgradeFrame::Request, &mut buf);
    let decoded = decode_upgrade(&mut buf).unwrap().unwrap();
    assert_eq!(decoded, UpgradeFrame::Request);
    assert_eq!(buf.len(), 0);
}

#[test]
fn upgrade_round_trip_response() {
    let mut buf = BytesMut::new();
    encode_upgrade(UpgradeFrame::Response, &mut buf);
    let decoded = decode_upgrade(&mut buf).unwrap().unwrap();
    assert_eq!(decoded, UpgradeFrame::Response);
    assert_eq!(buf.len(), 0);
}

#[test]
fn upgrade_partial_line_waits() {
    let mut full = BytesMut::new();
    encode_upgrade(UpgradeFrame::Request, &mut full);
    let wire: Vec<u8> = full[..].to_vec();
    for k in 0..wire.len() {
        let mut partial = BytesMut::new();
        partial.extend_from_slice(&wire[..k]);
        assert!(decode_upgrade(&mut partial).unwrap().is_none());
        assert_eq!(&partial[..], &wire[..k]);
    }
}

#[test]
fn upgrade_garbage_is_invalid() {
    let mut buf = BytesMut::new();
    buf.extend_from_slice(b"PUT /stuff HTTP/1.1\r\n\r\n");
    let e = decode_upgrade(&mut buf).unwrap_err();
    assert_eq!(e, TokuError::InvalidUpgradeFrame);
}
