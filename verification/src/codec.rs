//! The framing codec: encodes a frame by appending its exact wire bytes to
//! the outgoing buffer, and decodes by consuming exactly one frame's bytes
//! from the incoming buffer, restartably, under the payload-size limit.

use vstd::prelude::*;

use bytes::BytesMut;

use crate::bytebuf::{
    buf_advance, buf_byte, buf_contents, buf_len, buf_put_slice, buf_put_u16, buf_put_u32,
    buf_put_u8,
};
use crate::error::ProtocolError;
use crate::frames::{joined, read_u32_be, Error, GoAway, Hello, HelloAck, Ping, Pong, Push,
    Request, Response, TokuFrame};
use crate::lists::{COMMA, PIPE};
use crate::wire::{header_len, parse, payload_of, wire, ParseOut};

verus! {

/// The fixed header size of a known opcode.
fn header_size(op: u8) -> (h: usize)
    requires
        crate::wire::known_opcode(op),
    ensures
        h as int == header_len(op),
        6 <= h <= 12,
{
    if op == 1 {
        7
    } else if op == 2 {
        10
    } else if op == 3 {
        6
    } else if op == 4 {
        6
    } else if op == 5 {
        10
    } else if op == 6 {
        10
    } else if op == 7 {
        6
    } else if op == 8 {
        8
    } else {
        12
    }
}

/// Appends the exact wire form of `frame` to `dst`, unless the payload
/// exceeds `max_payload_size`, in which case nothing is written.
pub fn encode(frame: TokuFrame, dst: &mut BytesMut, max_payload_size: u32) -> (r: Result<
    (),
    ProtocolError,
>)
    requires
        buf_contents(*old(dst)).len() + 12 + max_payload_size as int <= usize::MAX / 2,
    ensures
        match r {
            Ok(_) => payload_of(frame@).len() <= max_payload_size && buf_contents(*final(dst))
                == buf_contents(*old(dst)) + wire(frame@),
            Err(e) => e == ProtocolError::FrameTooLarge && payload_of(frame@).len()
                > max_payload_size && buf_contents(*final(dst)) == buf_contents(*old(dst)),
        },
{
    let ghost base = buf_contents(*old(dst));
    match frame {
        TokuFrame::Hello(f) => {
            let Hello { flags, version, encodings, compressions } = f;
            let mut pl = joined(&encodings, COMMA);
            pl.push(PIPE);
            let mut jc = joined(&compressions, COMMA);
            pl.append(&mut jc);
            proof {
                assert(pl@ =~= payload_of(frame@));
            }
            if pl.len() > max_payload_size as usize {
                return Err(ProtocolError::FrameTooLarge);
            }
            buf_put_u8(dst, 1);
            buf_put_u8(dst, flags);
            buf_put_u8(dst, version);
            buf_put_u32(dst, pl.len() as u32);
            buf_put_slice(dst, pl.as_slice());
            proof {
                assert(buf_contents(*final(dst)) =~= base + wire(frame@));
            }
            Ok(())
        }
        TokuFrame::HelloAck(f) => {
            let HelloAck { flags, ping_interval_ms, encoding, compression } = f;
            let mut pl = encoding;
            pl.push(PIPE);
            match compression {
                Some(c) => {
                    let mut cv = c;
                    pl.append(&mut cv);
                }
                None => {}
            }
            proof {
                assert(pl@ =~= payload_of(frame@));
            }
            if pl.len() > max_payload_size as usize {
                return Err(ProtocolError::FrameTooLarge);
            }
            buf_put_u8(dst, 2);
            buf_put_u8(dst, flags);
            buf_put_u32(dst, ping_interval_ms);
            buf_put_u32(dst, pl.len() as u32);
            buf_put_slice(dst, pl.as_slice());
            proof {
                assert(buf_contents(*final(dst)) =~= base + wire(frame@));
            }
            Ok(())
        }
        TokuFrame::Ping(f) => {
            buf_put_u8(dst, 3);
            buf_put_u8(dst, f.flags);
            buf_put_u32(dst, f.sequence_id);
            proof {
                assert(buf_contents(*final(dst)) =~= base + wire(frame@));
            }
            Ok(())
        }
        TokuFrame::Pong(f) => {
            buf_put_u8(dst, 4);
            buf_put_u8(dst, f.flags);
            buf_put_u32(dst, f.sequence_id);
            proof {
                assert(buf_contents(*final(dst)) =~= base + wire(frame@));
            }
            Ok(())
        }
        TokuFrame::Request(f) => {
            let Request { flags, sequence_id, payload } = f;
            proof {
                assert(payload.deep_view() =~= payload@);
            }
            if payload.len() > max_payload_size as usize {
                return Err(ProtocolError::FrameTooLarge);
            }
            buf_put_u8(dst, 5);
            buf_put_u8(dst, flags);
            buf_put_u32(dst, sequence_id);
            buf_put_u32(dst, payload.len() as u32);
            buf_put_slice(dst, payload.as_slice());
            proof {
                assert(buf_contents(*final(dst)) =~= base + wire(frame@));
            }
            Ok(())
        }
        TokuFrame::Response(f) => {
            let Response { flags, sequence_id, payload } = f;
            proof {
                assert(payload.deep_view() =~= payload@);
            }
            if payload.len() > max_payload_size as usize {
                return Err(ProtocolError::FrameTooLarge);
            }
            buf_put_u8(dst, 6);
            buf_put_u8(dst, flags);
            buf_put_u32(dst, sequence_id);
            buf_put_u32(dst, payload.len() as u32);
            buf_put_slice(dst, payload.as_slice());
            proof {
                assert(buf_contents(*final(dst)) =~= base + wire(frame@));
            }
            Ok(())
        }
        TokuFrame::Push(f) => {
            let Push { flags, payload } = f;
            proof {
                assert(payload.deep_view() =~= payload@);
            }
            if payload.len() > max_payload_size as usize {
                return Err(ProtocolError::FrameTooLarge);
            }
            buf_put_u8(dst, 7);
            buf_put_u8(dst, flags);
            buf_put_u32(dst, payload.len() as u32);
            buf_put_slice(dst, payload.as_slice());
            proof {
                assert(buf_contents(*final(dst)) =~= base + wire(frame@));
            }
            Ok(())
        }
        TokuFrame::GoAway(f) => {
            let GoAway { flags, code, payload } = f;
            proof {
                assert(payload.deep_view() =~= payload@);
            }
            if payload.len() > max_payload_size as usize {
                return Err(ProtocolError::FrameTooLarge);
            }
            buf_put_u8(dst, 8);
            buf_put_u8(dst, flags);
            buf_put_u16(dst, code);
            buf_put_u32(dst, payload.len() as u32);
            buf_put_slice(dst, payload.as_slice());
            proof {
                assert(buf_contents(*final(dst)) =~= base + wire(frame@));
            }
            Ok(())
        }
        TokuFrame::Error(f) => {
            let Error { flags, sequence_id, code, payload } = f;
            proof {
                assert(payload.deep_view() =~= payload@);
            }
            if payload.len() > max_payload_size as usize {
                return Err(ProtocolError::FrameTooLarge);
            }
            buf_put_u8(dst, 9);
            buf_put_u8(dst, flags);
            buf_put_u32(dst, sequence_id);
            buf_put_u16(dst, code);
            buf_put_u32(dst, payload.len() as u32);
            buf_put_slice(dst, payload.as_slice());
            proof {
                assert(buf_contents(*final(dst)) =~= base + wire(frame@));
            }
            Ok(())
        }
    }
}

/// Decodes at most one frame from the front of `src`: returns `None` and
/// leaves the buffer untouched while fewer bytes are present than a full
/// frame requires; otherwise consumes exactly one frame's bytes, or fails
/// on an unknown opcode, an oversized payload, or a malformed settings
/// payload, leaving the buffer untouched.
pub fn decode(src: &mut BytesMut, max_payload_size: u32) -> (r: Result<
    Option<TokuFrame>,
    ProtocolError,
>)
    ensures
        match r {
            Ok(out) => match out {
                None => parse(buf_contents(*old(src)), max_payload_size) is Incomplete
                    && buf_contents(*final(src)) == buf_contents(*old(src)),
                Some(f) => parse(buf_contents(*old(src)), max_payload_size) matches
                    ParseOut::Parsed(fs, n) && fs == f@ && buf_contents(*final(src))
                    == buf_contents(*old(src)).skip(n),
            },
            Err(e) => parse(buf_contents(*old(src)), max_payload_size) == ParseOut::Fail(e)
                && buf_contents(*final(src)) == buf_contents(*old(src)),
        },
{
    let ghost s = buf_contents(*old(src));
    let n = buf_len(src);
    if n < 1 {
        return Ok(None);
    }
    let op = buf_byte(src, 0);
    if op < 1 || op > 9 {
        return Err(ProtocolError::InvalidOpcode { actual: op, expected: None });
    }
    let h = header_size(op);
    if n < h {
        return Ok(None);
    }
    let psize: u32 = if op == 3 || op == 4 {
        0
    } else {
        read_u32_be(src, h - 4)
    };
    proof {
        assert(crate::wire::announced_size(s, op) == psize);
    }
    if (n as u64) < h as u64 + psize as u64 {
        return Ok(None);
    }
    if psize > max_payload_size {
        return Err(ProtocolError::FrameTooLarge);
    }
    let total = h + psize as usize;
    let ghost body = s.subrange(0, total as int);
    let frame = if op == 1 {
        match Hello::from_buf(src, total) {
            Ok(f) => TokuFrame::Hello(f),
            Err(e) => {
                return Err(e);
            }
        }
    } else if op == 2 {
        match HelloAck::from_buf(src, total) {
            Ok(f) => TokuFrame::HelloAck(f),
            Err(e) => {
                return Err(e);
            }
        }
    } else if op == 3 {
        TokuFrame::Ping(Ping::from_buf(src, total))
    } else if op == 4 {
        TokuFrame::Pong(Pong::from_buf(src, total))
    } else if op == 5 {
        TokuFrame::Request(Request::from_buf(src, total))
    } else if op == 6 {
        TokuFrame::Response(Response::from_buf(src, total))
    } else if op == 7 {
        TokuFrame::Push(Push::from_buf(src, total))
    } else if op == 8 {
        TokuFrame::GoAway(GoAway::from_buf(src, total))
    } else {
        TokuFrame::Error(Error::from_buf(src, total))
    };
    buf_advance(src, total);
    Ok(Some(frame))
}

} // verus!
