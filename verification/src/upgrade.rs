//! The line-based upgrade codec used before framing is active: the client
//! sends a single HTTP-style upgrade request line, the server answers with a
//! single upgrade response line, and the socket then switches to framed
//! mode. Anything else in this phase is an invalid upgrade frame.

use vstd::prelude::*;

use bytes::BytesMut;

use crate::bytebuf::{buf_advance, buf_byte, buf_contents, buf_len, buf_put_slice};
use crate::error::TokuError;

verus! {

/// The two messages of the upgrade phase.
#[derive(Debug, Clone, Copy, PartialEq, Eq, Structural)]
pub enum UpgradeFrame {
    Request,
    Response,
}

/// The exact bytes of the upgrade request line.
pub open spec fn upgrade_request_wire() -> Seq<u8> {
    seq![71u8, 69, 84, 32, 47, 32, 72, 84, 84, 80, 47, 49, 46, 49, 13, 10, 85, 112, 103, 114, 97, 100, 101, 58, 32, 116, 111, 107, 117, 13, 10, 13, 10]
}

/// The exact bytes of the upgrade response line.
pub open spec fn upgrade_response_wire() -> Seq<u8> {
    seq![72u8, 84, 84, 80, 47, 49, 46, 49, 32, 49, 48, 49, 13, 10, 85, 112, 103, 114, 97, 100, 101, 58, 32, 116, 111, 107, 117, 13, 10, 13, 10]
}

/// The exact bytes of an upgrade frame on the wire.
pub open spec fn upgrade_wire(f: UpgradeFrame) -> Seq<u8> {
    match f {
        UpgradeFrame::Request => upgrade_request_wire(),
        UpgradeFrame::Response => upgrade_response_wire(),
    }
}

/// What parsing the front of an upgrade-phase buffer yields.
pub enum UpgradeParse {
    Incomplete,
    Bad,
    Parsed(UpgradeFrame, int),
}

/// Parses the front of an upgrade-phase buffer: a full line yields its
/// frame, a proper prefix of either line asks for more bytes, and anything
/// else is invalid.
pub open spec fn parse_upgrade(s: Seq<u8>) -> UpgradeParse {
    let rq = upgrade_request_wire();
    let rs = upgrade_response_wire();
    if s.len() >= rq.len() && s.take(rq.len() as int) == rq {
        UpgradeParse::Parsed(UpgradeFrame::Request, rq.len() as int)
    } else if s.len() >= rs.len() && s.take(rs.len() as int) == rs {
        UpgradeParse::Parsed(UpgradeFrame::Response, rs.len() as int)
    } else if (s.len() < rq.len() && s == rq.take(s.len() as int)) || (s.len() < rs.len() && s
        == rs.take(s.len() as int)) {
        UpgradeParse::Incomplete
    } else {
        UpgradeParse::Bad
    }
}

/// The upgrade request line as a byte vector.
pub fn upgrade_request_line() -> (r: Vec<u8>)
    ensures
        r@ == upgrade_request_wire(),
{
    let mut v: Vec<u8> = Vec::new();
    v.push(71);
    v.push(69);
    v.push(84);
    v.push(32);
    v.push(47);
    v.push(32);
    v.push(72);
    v.push(84);
    v.push(84);
    v.push(80);
    v.push(47);
    v.push(49);
    v.push(46);
    v.push(49);
    v.push(13);
    v.push(10);
    v.push(85);
    v.push(112);
    v.push(103);
    v.push(114);
    v.push(97);
    v.push(100);
    v.push(101);
    v.push(58);
    v.push(32);
    v.push(116);
    v.push(111);
    v.push(107);
    v.push(117);
    v.push(13);
    v.push(10);
    v.push(13);
    v.push(10);
    proof {
        assert(v@ =~= upgrade_request_wire());
    }
    v
}

/// The upgrade response line as a byte vector.
pub fn upgrade_response_line() -> (r: Vec<u8>)
    ensures
        r@ == upgrade_response_wire(),
{
    let mut v: Vec<u8> = Vec::new();
    v.push(72);
    v.push(84);
    v.push(84);
    v.push(80);
    v.push(47);
    v.push(49);
    v.push(46);
    v.push(49);
    v.push(32);
    v.push(49);
    v.push(48);
    v.push(49);
    v.push(13);
    v.push(10);
    v.push(85);
    v.push(112);
    v.push(103);
    v.push(114);
    v.push(97);
    v.push(100);
    v.push(101);
    v.push(58);
    v.push(32);
    v.push(116);
    v.push(111);
    v.push(107);
    v.push(117);
    v.push(13);
    v.push(10);
    v.push(13);
    v.push(10);
    proof {
        assert(v@ =~= upgrade_response_wire());
    }
    v
}

/// Appends the wire form of an upgrade frame to `dst`.
pub fn encode_upgrade(frame: UpgradeFrame, dst: &mut BytesMut)
    requires
        buf_contents(*old(dst)).len() + 64 <= usize::MAX / 2,
    ensures
        buf_contents(*final(dst)) == buf_contents(*old(dst)) + upgrade_wire(frame),
{
    let line = match frame {
        UpgradeFrame::Request => upgrade_request_line(),
        UpgradeFrame::Response => upgrade_response_line(),
    };
    buf_put_slice(dst, line.as_slice());
}

/// How far a buffer agrees with one candidate line.
enum LineMatch {
    Full,
    Partial,
    Mismatch,
}

/// Compares the front of the buffer against one candidate line.
fn match_line(src: &BytesMut, w: &Vec<u8>) -> (r: LineMatch)
    ensures
        match r {
            LineMatch::Full => buf_contents(*src).len() >= w@.len() && buf_contents(*src).take(
                w@.len() as int,
            ) == w@,
            LineMatch::Partial => buf_contents(*src).len() < w@.len() && buf_contents(*src)
                == w@.take(buf_contents(*src).len() as int),
            LineMatch::Mismatch => !(buf_contents(*src).len() >= w@.len() && buf_contents(
                *src,
            ).take(w@.len() as int) == w@) && !(buf_contents(*src).len() < w@.len()
                && buf_contents(*src) == w@.take(buf_contents(*src).len() as int)),
        },
{
    let ghost s = buf_contents(*src);
    let n = buf_len(src);
    let m = if n < w.len() {
        n
    } else {
        w.len()
    };
    let mut j: usize = 0;
    while j < m
        invariant
            j <= m,
            m <= n,
            m <= w.len(),
            n == s.len(),
            s == buf_contents(*src),
            forall|k: int| 0 <= k < j ==> s[k] == w@[k],
        decreases m - j,
    {
        if buf_byte(src, j) != w[j] {
            proof {
                assert(s[j as int] != w@[j as int]);
                if n >= w@.len() {
                    assert(s.take(w@.len() as int)[j as int] == s[j as int]);
                } else {
                    assert(w@.take(n as int)[j as int] == w@[j as int]);
                }
            }
            return LineMatch::Mismatch;
        }
        j += 1;
    }
    if n >= w.len() {
        proof {
            assert(s.take(w@.len() as int) =~= w@);
        }
        LineMatch::Full
    } else {
        proof {
            assert(s =~= w@.take(n as int));
        }
        LineMatch::Partial
    }
}

/// Decodes at most one upgrade frame from the front of `src`: `None` while
/// the line is still incomplete; on success consumes exactly the line.
pub fn decode_upgrade(src: &mut BytesMut) -> (r: Result<Option<UpgradeFrame>, TokuError>)
    ensures
        match r {
            Ok(out) => match out {
                None => parse_upgrade(buf_contents(*old(src))) is Incomplete && buf_contents(
                    *final(src),
                ) == buf_contents(*old(src)),
                Some(f) => parse_upgrade(buf_contents(*old(src))) matches UpgradeParse::Parsed(
                    g,
                    n,
                ) && g == f && buf_contents(*final(src)) == buf_contents(*old(src)).skip(n),
            },
            Err(e) => parse_upgrade(buf_contents(*old(src))) is Bad && e
                == TokuError::InvalidUpgradeFrame && buf_contents(*final(src)) == buf_contents(
                *old(src),
            ),
        },
{
    let rq = upgrade_request_line();
    match match_line(src, &rq) {
        LineMatch::Full => {
            buf_advance(src, rq.len());
            Ok(Some(UpgradeFrame::Request))
        }
        LineMatch::Partial => Ok(None),
        LineMatch::Mismatch => {
            let rs = upgrade_response_line();
            match match_line(src, &rs) {
                LineMatch::Full => {
                    buf_advance(src, rs.len());
                    Ok(Some(UpgradeFrame::Response))
                }
                LineMatch::Partial => Ok(None),
                LineMatch::Mismatch => Err(TokuError::InvalidUpgradeFrame),
            }
        }
    }
}

/// A full upgrade line followed by anything parses back to the same frame,
/// consuming exactly the line.
pub proof fn lemma_parse_upgrade_wire(f: UpgradeFrame, rest: Seq<u8>)
    ensures
        parse_upgrade(upgrade_wire(f) + rest) == UpgradeParse::Parsed(
            f,
            upgrade_wire(f).len() as int,
        ),
{
    let s = upgrade_wire(f) + rest;
    match f {
        UpgradeFrame::Request => {
            assert(s.take(upgrade_request_wire().len() as int) =~= upgrade_request_wire());
        }
        UpgradeFrame::Response => {
            assert(s.take(upgrade_response_wire().len() as int) =~= upgrade_response_wire());
            if s.len() >= upgrade_request_wire().len() {
                assert(s.take(upgrade_request_wire().len() as int)[0] == 72);
            }
        }
    }
}

/// A strict prefix of an upgrade line parses as incomplete.
pub proof fn lemma_parse_upgrade_prefix(f: UpgradeFrame, k: int)
    requires
        0 <= k < upgrade_wire(f).len(),
    ensures
        parse_upgrade(upgrade_wire(f).take(k)) == UpgradeParse::Incomplete,
{
    let w = upgrade_wire(f);
    let p = w.take(k);
    match f {
        UpgradeFrame::Request => {
            assert(p =~= upgrade_request_wire().take(k));
            if p.len() >= upgrade_response_wire().len() {
                assert(p.take(upgrade_response_wire().len() as int)[0] == 71);
            }
        }
        UpgradeFrame::Response => {
            assert(p =~= upgrade_response_wire().take(k));
            if p.len() >= upgrade_request_wire().len() {
                assert(p.take(upgrade_request_wire().len() as int)[0] == 72);
            }
        }
    }
}

} // verus!
