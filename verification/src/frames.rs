//! The nine protocol frames as executable types, each viewed as a
//! [`FrameSpec`], together with the verified helpers that read and build
//! their wire payloads.

use vstd::prelude::*;

use bytes::BytesMut;

use crate::bytebuf::{buf_byte, buf_contents, buf_copy_range};
use crate::error::ProtocolError;
use crate::lists::{
    all_valid_names, first_sep, has_no_byte, join_with, lemma_first_sep_at, lemma_join_push,
    lemma_no_byte_no_sep, lemma_split_many, lemma_split_on_whole, lemma_split_two, name_byte,
    split_on, split_term, valid_name, COMMA, PIPE,
};
use crate::wire::{be16_at, be32_at, parse_body, parse_hello_lists, FrameSpec};

verus! {

/// Opens a connection: protocol version and the offered encoding and
/// compression name lists.
#[derive(Debug, Clone, PartialEq)]
pub struct Hello {
    pub flags: u8,
    pub version: u8,
    pub encodings: Vec<Vec<u8>>,
    pub compressions: Vec<Vec<u8>>,
}

impl View for Hello {
    type V = FrameSpec;

    open spec fn view(&self) -> FrameSpec {
        FrameSpec::Hello {
            flags: self.flags,
            version: self.version,
            encodings: self.encodings.deep_view(),
            compressions: self.compressions.deep_view(),
        }
    }
}

/// Accepts a connection: the ping interval and the chosen encoding and
/// optional compression.
#[derive(Debug, Clone, PartialEq)]
pub struct HelloAck {
    pub flags: u8,
    pub ping_interval_ms: u32,
    pub encoding: Vec<u8>,
    pub compression: Option<Vec<u8>>,
}

impl View for HelloAck {
    type V = FrameSpec;

    open spec fn view(&self) -> FrameSpec {
        FrameSpec::HelloAck {
            flags: self.flags,
            ping_interval_ms: self.ping_interval_ms,
            encoding: self.encoding.deep_view(),
            compression: match self.compression {
                Some(ref c) => Some(c.deep_view()),
                None => None,
            },
        }
    }
}

/// A liveness probe carrying a sequence id to be echoed back.
#[derive(Debug, Clone, PartialEq)]
pub struct Ping {
    pub flags: u8,
    pub sequence_id: u32,
}

impl View for Ping {
    type V = FrameSpec;

    open spec fn view(&self) -> FrameSpec {
        FrameSpec::Ping { flags: self.flags, sequence_id: self.sequence_id }
    }
}

/// The echo of a ping, carrying the same sequence id.
#[derive(Debug, Clone, PartialEq)]
pub struct Pong {
    pub flags: u8,
    pub sequence_id: u32,
}

impl View for Pong {
    type V = FrameSpec;

    open spec fn view(&self) -> FrameSpec {
        FrameSpec::Pong { flags: self.flags, sequence_id: self.sequence_id }
    }
}

/// A correlated request carrying opaque payload bytes.
#[derive(Debug, Clone, PartialEq)]
pub struct Request {
    pub flags: u8,
    pub sequence_id: u32,
    pub payload: Vec<u8>,
}

impl View for Request {
    type V = FrameSpec;

    open spec fn view(&self) -> FrameSpec {
        FrameSpec::Request {
            flags: self.flags,
            sequence_id: self.sequence_id,
            payload: self.payload.deep_view(),
        }
    }
}

/// The correlated answer to a request.
#[derive(Debug, Clone, PartialEq)]
pub struct Response {
    pub flags: u8,
    pub sequence_id: u32,
    pub payload: Vec<u8>,
}

impl View for Response {
    type V = FrameSpec;

    open spec fn view(&self) -> FrameSpec {
        FrameSpec::Response {
            flags: self.flags,
            sequence_id: self.sequence_id,
            payload: self.payload.deep_view(),
        }
    }
}

/// A fire-and-forget message with no correlation.
#[derive(Debug, Clone, PartialEq)]
pub struct Push {
    pub flags: u8,
    pub payload: Vec<u8>,
}

impl View for Push {
    type V = FrameSpec;

    open spec fn view(&self) -> FrameSpec {
        FrameSpec::Push { flags: self.flags, payload: self.payload.deep_view() }
    }
}

/// Announces that the sender is closing the connection, with a reason code
/// and diagnostic bytes.
#[derive(Debug, Clone, PartialEq)]
pub struct GoAway {
    pub flags: u8,
    pub code: u16,
    pub payload: Vec<u8>,
}

impl View for GoAway {
    type V = FrameSpec;

    open spec fn view(&self) -> FrameSpec {
        FrameSpec::GoAway { flags: self.flags, code: self.code, payload: self.payload.deep_view() }
    }
}

/// A correlated failure answer, with a code and diagnostic bytes.
#[derive(Debug, Clone, PartialEq)]
pub struct Error {
    pub flags: u8,
    pub sequence_id: u32,
    pub code: u16,
    pub payload: Vec<u8>,
}

impl View for Error {
    type V = FrameSpec;

    open spec fn view(&self) -> FrameSpec {
        FrameSpec::Error {
            flags: self.flags,
            sequence_id: self.sequence_id,
            code: self.code,
            payload: self.payload.deep_view(),
        }
    }
}

/// Any one of the nine protocol frames.
#[derive(Debug, Clone, PartialEq)]
pub enum TokuFrame {
    Hello(Hello),
    HelloAck(HelloAck),
    Ping(Ping),
    Pong(Pong),
    Request(Request),
    Response(Response),
    Push(Push),
    GoAway(GoAway),
    Error(Error),
}

impl View for TokuFrame {
    type V = FrameSpec;

    open spec fn view(&self) -> FrameSpec {
        match self {
            TokuFrame::Hello(f) => f@,
            TokuFrame::HelloAck(f) => f@,
            TokuFrame::Ping(f) => f@,
            TokuFrame::Pong(f) => f@,
            TokuFrame::Request(f) => f@,
            TokuFrame::Response(f) => f@,
            TokuFrame::Push(f) => f@,
            TokuFrame::GoAway(f) => f@,
            TokuFrame::Error(f) => f@,
        }
    }
}

impl TokuFrame {
    /// Returns the opcode byte of this frame.
    pub fn opcode(&self) -> (r: u8)
        ensures
            r == crate::wire::opcode_of(self@),
    {
        match self {
            TokuFrame::Hello(_) => 1,
            TokuFrame::HelloAck(_) => 2,
            TokuFrame::Ping(_) => 3,
            TokuFrame::Pong(_) => 4,
            TokuFrame::Request(_) => 5,
            TokuFrame::Response(_) => 6,
            TokuFrame::Push(_) => 7,
            TokuFrame::GoAway(_) => 8,
            TokuFrame::Error(_) => 9,
        }
    }
}

/// Whether `b` may appear in an encoding or compression name.
fn is_name_byte(b: u8) -> (r: bool)
    ensures
        r == name_byte(b),
{
    (97 <= b && b <= 122) || (65 <= b && b <= 90) || (48 <= b && b <= 57) || b == 95 || b == 45
}

/// Whether `v` is a well-formed encoding or compression name.
pub fn is_valid_name(v: &Vec<u8>) -> (r: bool)
    ensures
        r == valid_name(v@),
{
    if v.len() == 0 {
        return false;
    }
    let mut j: usize = 0;
    while j < v.len()
        invariant
            j <= v.len(),
            forall|k: int| 0 <= k < j ==> name_byte(#[trigger] v@[k]),
        decreases v.len() - j,
    {
        if !is_name_byte(v[j]) {
            return false;
        }
        j += 1;
    }
    true
}

/// Whether every entry of `names` is a well-formed name.
fn all_names_valid(names: &Vec<Vec<u8>>) -> (r: bool)
    ensures
        r == all_valid_names(names.deep_view()),
{
    let mut j: usize = 0;
    while j < names.len()
        invariant
            j <= names.len(),
            forall|k: int| 0 <= k < j ==> valid_name(#[trigger] names.deep_view()[k]),
        decreases names.len() - j,
    {
        if !is_valid_name(&names[j]) {
            assert(names.deep_view()[j as int] == names@[j as int]@);
            return false;
        }
        assert(names.deep_view()[j as int] == names@[j as int]@);
        j += 1;
    }
    true
}

/// Copies `v[from..to]` into a fresh vector.
pub(crate) fn vec_copy_range(v: &Vec<u8>, from: usize, to: usize) -> (r: Vec<u8>)
    requires
        from <= to <= v.len(),
    ensures
        r@ == v@.subrange(from as int, to as int),
{
    let mut out: Vec<u8> = Vec::new();
    let mut j = from;
    while j < to
        invariant
            from <= j <= to <= v.len(),
            out@ == v@.subrange(from as int, j as int),
        decreases to - j,
    {
        out.push(v[j]);
        assert(out@ =~= v@.subrange(from as int, j + 1));
        j += 1;
    }
    out
}

/// Finds the first occurrence of `sep` in `v[from..to]`.
fn find_byte(v: &Vec<u8>, from: usize, to: usize, sep: u8) -> (r: Option<usize>)
    requires
        from <= to <= v.len(),
    ensures
        match r {
            Some(i) => from <= i < to && v@[i as int] == sep && first_sep(
                v@.subrange(from as int, to as int),
                sep,
            ) == i - from,
            None => first_sep(v@.subrange(from as int, to as int), sep) == -1,
        },
{
    let ghost region = v@.subrange(from as int, to as int);
    let mut j = from;
    while j < to
        invariant
            from <= j <= to <= v.len(),
            region == v@.subrange(from as int, to as int),
            forall|k: int| from <= k < j ==> #[trigger] v@[k] != sep,
        decreases to - j,
    {
        if v[j] == sep {
            proof {
                assert(region[j - from] == sep);
                assert forall|k: int| 0 <= k < j - from implies #[trigger] region[k] != sep by {
                    assert(region[k] == v@[from + k]);
                }
                lemma_first_sep_at(region, sep, j - from);
            }
            return Some(j);
        }
        j += 1;
    }
    proof {
        assert forall|k: int| 0 <= k < region.len() implies #[trigger] region[k] != sep by {
            assert(region[k] == v@[from + k]);
        }
        lemma_no_byte_no_sep(region, sep);
    }
    None
}

/// Splits `v[from..to]` on every occurrence of `sep`.
fn split_list(v: &Vec<u8>, from: usize, to: usize, sep: u8) -> (r: Vec<Vec<u8>>)
    requires
        from <= to <= v.len(),
    ensures
        r.deep_view() == split_on(v@.subrange(from as int, to as int), sep),
{
    let ghost region = v@.subrange(from as int, to as int);
    let mut parts: Vec<Vec<u8>> = Vec::new();
    let mut cur = from;
    loop
        invariant
            from <= cur <= to <= v.len(),
            region == v@.subrange(from as int, to as int),
            split_on(region, sep) == parts.deep_view() + split_on(
                v@.subrange(cur as int, to as int),
                sep,
            ),
        decreases to - cur,
    {
        let ghost rem = v@.subrange(cur as int, to as int);
        match find_byte(v, cur, to, sep) {
            Some(i) => {
                let piece = vec_copy_range(v, cur, i);
                proof {
                    assert(first_sep(rem, sep) == i - cur);
                    assert(split_on(rem, sep) == seq![rem.subrange(0, i - cur)] + split_on(
                        rem.subrange(i - cur + 1, rem.len() as int),
                        sep,
                    ));
                    assert(rem.subrange(0, i - cur) =~= piece@);
                    assert(rem.subrange(i - cur + 1, rem.len() as int) =~= v@.subrange(
                        i + 1,
                        to as int,
                    ));
                }
                let ghost old_parts = parts.deep_view();
                parts.push(piece);
                proof {
                    assert(parts.deep_view() =~~= old_parts.push(piece@));
                    assert(old_parts.push(piece@) + split_on(v@.subrange(i + 1, to as int), sep)
                        =~= old_parts + (seq![piece@] + split_on(
                        v@.subrange(i + 1, to as int),
                        sep,
                    )));
                }
                cur = i + 1;
            }
            None => {
                let piece = vec_copy_range(v, cur, to);
                proof {
                    lemma_no_byte_no_sep_converse(rem, sep);
                    lemma_split_on_whole(rem, sep);
                    assert(rem =~= piece@);
                }
                let ghost old_parts = parts.deep_view();
                parts.push(piece);
                proof {
                    assert(parts.deep_view() =~~= old_parts.push(piece@));
                    assert(old_parts + seq![piece@] =~= old_parts.push(piece@));
                }
                return parts;
            }
        }
    }
}

/// A sequence whose first separator is absent has no separator at all.
proof fn lemma_no_byte_no_sep_converse(s: Seq<u8>, sep: u8)
    requires
        first_sep(s, sep) == -1,
    ensures
        has_no_byte(s, sep),
{
    crate::lists::lemma_first_sep(s, sep);
}

/// Splits a comma-separated name list region, discarding one trailing empty
/// element, as the wire grammar asks.
fn split_names(v: &Vec<u8>, from: usize, to: usize) -> (r: Vec<Vec<u8>>)
    requires
        from <= to <= v.len(),
    ensures
        r.deep_view() == split_term(v@.subrange(from as int, to as int), COMMA),
{
    let ghost region = v@.subrange(from as int, to as int);
    if from == to {
        let parts: Vec<Vec<u8>> = Vec::new();
        proof {
            assert(region.len() == 0);
            assert(parts.deep_view() =~= split_term(region, COMMA));
        }
        parts
    } else if v[to - 1] == COMMA {
        proof {
            assert(region.last() == v@[to - 1]);
            assert(region.take(region.len() - 1) =~= v@.subrange(from as int, to - 1));
        }
        split_list(v, from, to - 1, COMMA)
    } else {
        proof {
            assert(region.last() == v@[to - 1]);
        }
        split_list(v, from, to, COMMA)
    }
}

/// Returns `names` joined with `sep` between each adjacent pair.
pub fn joined(names: &Vec<Vec<u8>>, sep: u8) -> (r: Vec<u8>)
    ensures
        r@ == join_with(names.deep_view(), sep),
{
    let ghost dv = names.deep_view();
    let mut out: Vec<u8> = Vec::new();
    let mut i: usize = 0;
    while i < names.len()
        invariant
            i <= names.len(),
            dv == names.deep_view(),
            out@ == join_with(dv.take(i as int), sep),
        decreases names.len() - i,
    {
        if i > 0 {
            out.push(sep);
        }
        let n = &names[i];
        let mut piece = vec_copy_range(n, 0, n.len());
        proof {
            assert(piece@ =~= names@[i as int]@);
            assert(dv[i as int] =~= names@[i as int]@);
        }
        out.append(&mut piece);
        proof {
            lemma_join_push(dv.take(i as int), dv[i as int], sep);
            assert(dv.take(i as int).push(dv[i as int]) =~= dv.take(i + 1));
        }
        i += 1;
    }
    proof {
        assert(dv.take(dv.len() as int) =~= dv);
    }
    out
}

/// Reads the big-endian 16-bit value at offset `i` of the buffer.
pub(crate) fn read_u16_be(buf: &BytesMut, i: usize) -> (r: u16)
    requires
        i + 2 <= buf_contents(*buf).len(),
        buf_contents(*buf).len() <= usize::MAX,
    ensures
        r == be16_at(buf_contents(*buf), i as int),
{
    let b0 = buf_byte(buf, i);
    let b1 = buf_byte(buf, i + 1);
    ((b0 as u16) << 8) | (b1 as u16)
}

/// Reads the big-endian 32-bit value at offset `i` of the buffer.
pub(crate) fn read_u32_be(buf: &BytesMut, i: usize) -> (r: u32)
    requires
        i + 4 <= buf_contents(*buf).len(),
        buf_contents(*buf).len() <= usize::MAX,
    ensures
        r == be32_at(buf_contents(*buf), i as int),
{
    let b0 = buf_byte(buf, i);
    let b1 = buf_byte(buf, i + 1);
    let b2 = buf_byte(buf, i + 2);
    let b3 = buf_byte(buf, i + 3);
    ((b0 as u32) << 24) | ((b1 as u32) << 16) | ((b2 as u32) << 8) | (b3 as u32)
}

impl Hello {
    /// Parses a complete `Hello` frame from the first `frame_end` bytes of
    /// the buffer.
    pub fn from_buf(buf: &BytesMut, frame_end: usize) -> (r: Result<Hello, ProtocolError>)
        requires
            7 <= frame_end <= buf_contents(*buf).len(),
            buf_contents(*buf).len() <= usize::MAX,
        ensures
            match r {
                Ok(h) => parse_body(1, buf_contents(*buf).subrange(0, frame_end as int))
                    == Ok::<FrameSpec, ProtocolError>(h@),
                Err(e) => parse_body(1, buf_contents(*buf).subrange(0, frame_end as int))
                    == Err::<FrameSpec, ProtocolError>(e),
            },
    {
        let ghost body = buf_contents(*buf).subrange(0, frame_end as int);
        let flags = buf_byte(buf, 1);
        let version = buf_byte(buf, 2);
        let payload = buf_copy_range(buf, 7, frame_end);
        proof {
            assert(payload@ =~= body.skip(7));
        }
        let plen = payload.len();
        let ghost p = payload@;
        proof {
            assert(p.subrange(0, plen as int) =~= p);
        }
        match find_byte(&payload, 0, plen, PIPE) {
            None => {
                proof {
                    assert(split_on(p, PIPE) == seq![p]);
                }
                Err(ProtocolError::InvalidPayload)
            }
            Some(i) => {
                match find_byte(&payload, i + 1, plen, PIPE) {
                    Some(j) => {
                        proof {
                            let rest = p.subrange(i + 1, plen as int);
                            assert(rest[j - (i + 1)] == p[j as int]);
                            assert(!has_no_byte(rest, PIPE));
                            lemma_split_many(p, PIPE, i as int);
                        }
                        Err(ProtocolError::InvalidPayload)
                    }
                    None => {
                        proof {
                            lemma_no_byte_no_sep_converse(p.subrange(i + 1, plen as int), PIPE);
                            lemma_split_two(p, PIPE, i as int);
                        }
                        let encodings = split_names(&payload, 0, i);
                        let compressions = split_names(&payload, i + 1, plen);
                        if all_names_valid(&encodings) && all_names_valid(&compressions) {
                            let h = Hello { flags, version, encodings, compressions };
                            proof {
                                assert(body[1] == flags);
                                assert(body[2] == version);
                                assert(parse_hello_lists(p) == Ok::<_, ProtocolError>((
                                    h.encodings.deep_view(),
                                    h.compressions.deep_view(),
                                )));
                            }
                            Ok(h)
                        } else {
                            Err(ProtocolError::InvalidPayload)
                        }
                    }
                }
            }
        }
    }
}

impl HelloAck {
    /// Parses a complete `HelloAck` frame from the first `frame_end` bytes
    /// of the buffer.
    pub fn from_buf(buf: &BytesMut, frame_end: usize) -> (r: Result<HelloAck, ProtocolError>)
        requires
            10 <= frame_end <= buf_contents(*buf).len(),
            buf_contents(*buf).len() <= usize::MAX,
        ensures
            match r {
                Ok(a) => parse_body(2, buf_contents(*buf).subrange(0, frame_end as int))
                    == Ok::<FrameSpec, ProtocolError>(a@),
                Err(e) => parse_body(2, buf_contents(*buf).subrange(0, frame_end as int))
                    == Err::<FrameSpec, ProtocolError>(e),
            },
    {
        let ghost body = buf_contents(*buf).subrange(0, frame_end as int);
        let flags = buf_byte(buf, 1);
        let ping_interval_ms = read_u32_be(buf, 2);
        let payload = buf_copy_range(buf, 10, frame_end);
        proof {
            assert(payload@ =~= body.skip(10));
            assert(payload.deep_view() =~= body.skip(10));
            assert(body[1] == flags);
            assert(be32_at(body, 2) == ping_interval_ms) by {
                assert(body[2] == buf_contents(*buf)[2]);
                assert(body[3] == buf_contents(*buf)[3]);
                assert(body[4] == buf_contents(*buf)[4]);
                assert(body[5] == buf_contents(*buf)[5]);
            }
        }
        let plen = payload.len();
        let ghost p = payload@;
        proof {
            assert(p.subrange(0, plen as int) =~= p);
        }
        match find_byte(&payload, 0, plen, PIPE) {
            None => {
                proof {
                    assert(split_on(p, PIPE) == seq![p]);
                }
                Err(ProtocolError::InvalidPayload)
            }
            Some(i) => {
                match find_byte(&payload, i + 1, plen, PIPE) {
                    Some(j) => {
                        proof {
                            let rest = p.subrange(i + 1, plen as int);
                            assert(rest[j - (i + 1)] == p[j as int]);
                            assert(!has_no_byte(rest, PIPE));
                            lemma_split_many(p, PIPE, i as int);
                        }
                        Err(ProtocolError::InvalidPayload)
                    }
                    None => {
                        proof {
                            lemma_no_byte_no_sep_converse(p.subrange(i + 1, plen as int), PIPE);
                            lemma_split_two(p, PIPE, i as int);
                        }
                        let encoding = vec_copy_range(&payload, 0, i);
                        if !is_valid_name(&encoding) {
                            return Err(ProtocolError::InvalidPayload);
                        }
                        if i + 1 == plen {
                            let a = HelloAck { flags, ping_interval_ms, encoding, compression: None };
                            proof {
                                assert(a.encoding.deep_view() =~= p.subrange(0, i as int));
                            }
                            Ok(a)
                        } else {
                            let compression = vec_copy_range(&payload, i + 1, plen);
                            if is_valid_name(&compression) {
                                let ghost comp_view = compression.deep_view();
                                let a = HelloAck {
                                    flags,
                                    ping_interval_ms,
                                    encoding,
                                    compression: Some(compression),
                                };
                                proof {
                                    assert(a.encoding.deep_view() =~= p.subrange(0, i as int));
                                    assert(comp_view =~= p.subrange(i + 1, plen as int));
                                }
                                Ok(a)
                            } else {
                                Err(ProtocolError::InvalidPayload)
                            }
                        }
                    }
                }
            }
        }
    }
}

impl Ping {
    /// Parses a complete `Ping` frame from the first `frame_end` bytes.
    pub fn from_buf(buf: &BytesMut, frame_end: usize) -> (r: Ping)
        requires
            6 <= frame_end <= buf_contents(*buf).len(),
            buf_contents(*buf).len() <= usize::MAX,
        ensures
            parse_body(3, buf_contents(*buf).subrange(0, frame_end as int))
                == Ok::<FrameSpec, ProtocolError>(r@),
    {
        let ghost body = buf_contents(*buf).subrange(0, frame_end as int);
        let flags = buf_byte(buf, 1);
        let sequence_id = read_u32_be(buf, 2);
        proof {
            assert(body[1] == flags);
            assert(be32_at(body, 2) == sequence_id) by {
                assert(body[2] == buf_contents(*buf)[2]);
                assert(body[3] == buf_contents(*buf)[3]);
                assert(body[4] == buf_contents(*buf)[4]);
                assert(body[5] == buf_contents(*buf)[5]);
            }
        }
        Ping { flags, sequence_id }
    }
}

impl Pong {
    /// Parses a complete `Pong` frame from the first `frame_end` bytes.
    pub fn from_buf(buf: &BytesMut, frame_end: usize) -> (r: Pong)
        requires
            6 <= frame_end <= buf_contents(*buf).len(),
            buf_contents(*buf).len() <= usize::MAX,
        ensures
            parse_body(4, buf_contents(*buf).subrange(0, frame_end as int))
                == Ok::<FrameSpec, ProtocolError>(r@),
    {
        let ghost body = buf_contents(*buf).subrange(0, frame_end as int);
        let flags = buf_byte(buf, 1);
        let sequence_id = read_u32_be(buf, 2);
        proof {
            assert(body[1] == flags);
            assert(be32_at(body, 2) == sequence_id) by {
                assert(body[2] == buf_contents(*buf)[2]);
                assert(body[3] == buf_contents(*buf)[3]);
                assert(body[4] == buf_contents(*buf)[4]);
                assert(body[5] == buf_contents(*buf)[5]);
            }
        }
        Pong { flags, sequence_id }
    }
}

impl Request {
    /// Parses a complete `Request` frame from the first `frame_end` bytes.
    pub fn from_buf(buf: &BytesMut, frame_end: usize) -> (r: Request)
        requires
            10 <= frame_end <= buf_contents(*buf).len(),
            buf_contents(*buf).len() <= usize::MAX,
        ensures
            parse_body(5, buf_contents(*buf).subrange(0, frame_end as int))
                == Ok::<FrameSpec, ProtocolError>(r@),
    {
        let ghost body = buf_contents(*buf).subrange(0, frame_end as int);
        let flags = buf_byte(buf, 1);
        let sequence_id = read_u32_be(buf, 2);
        let payload = buf_copy_range(buf, 10, frame_end);
        proof {
            assert(body[1] == flags);
            assert(be32_at(body, 2) == sequence_id) by {
                assert(body[2] == buf_contents(*buf)[2]);
                assert(body[3] == buf_contents(*buf)[3]);
                assert(body[4] == buf_contents(*buf)[4]);
                assert(body[5] == buf_contents(*buf)[5]);
            }
            assert(payload@ =~= body.skip(10));
            assert(payload.deep_view() =~= body.skip(10));
        }
        Request { flags, sequence_id, payload }
    }
}

impl Response {
    /// Parses a complete `Response` frame from the first `frame_end` bytes.
    pub fn from_buf(buf: &BytesMut, frame_end: usize) -> (r: Response)
        requires
            10 <= frame_end <= buf_contents(*buf).len(),
            buf_contents(*buf).len() <= usize::MAX,
        ensures
            parse_body(6, buf_contents(*buf).subrange(0, frame_end as int))
                == Ok::<FrameSpec, ProtocolError>(r@),
    {
        let ghost body = buf_contents(*buf).subrange(0, frame_end as int);
        let flags = buf_byte(buf, 1);
        let sequence_id = read_u32_be(buf, 2);
        let payload = buf_copy_range(buf, 10, frame_end);
        proof {
            assert(body[1] == flags);
            assert(be32_at(body, 2) == sequence_id) by {
                assert(body[2] == buf_contents(*buf)[2]);
                assert(body[3] == buf_contents(*buf)[3]);
                assert(body[4] == buf_contents(*buf)[4]);
                assert(body[5] == buf_contents(*buf)[5]);
            }
            assert(payload@ =~= body.skip(10));
            assert(payload.deep_view() =~= body.skip(10));
        }
        Response { flags, sequence_id, payload }
    }
}

impl Push {
    /// Parses a complete `Push` frame from the first `frame_end` bytes.
    pub fn from_buf(buf: &BytesMut, frame_end: usize) -> (r: Push)
        requires
            6 <= frame_end <= buf_contents(*buf).len(),
            buf_contents(*buf).len() <= usize::MAX,
        ensures
            parse_body(7, buf_contents(*buf).subrange(0, frame_end as int))
                == Ok::<FrameSpec, ProtocolError>(r@),
    {
        let ghost body = buf_contents(*buf).subrange(0, frame_end as int);
        let flags = buf_byte(buf, 1);
        let payload = buf_copy_range(buf, 6, frame_end);
        proof {
            assert(body[1] == flags);
            assert(payload@ =~= body.skip(6));
            assert(payload.deep_view() =~= body.skip(6));
        }
        Push { flags, payload }
    }
}

impl GoAway {
    /// Parses a complete `GoAway` frame from the first `frame_end` bytes.
    pub fn from_buf(buf: &BytesMut, frame_end: usize) -> (r: GoAway)
        requires
            8 <= frame_end <= buf_contents(*buf).len(),
            buf_contents(*buf).len() <= usize::MAX,
        ensures
            parse_body(8, buf_contents(*buf).subrange(0, frame_end as int))
                == Ok::<FrameSpec, ProtocolError>(r@),
    {
        let ghost body = buf_contents(*buf).subrange(0, frame_end as int);
        let flags = buf_byte(buf, 1);
        let code = read_u16_be(buf, 2);
        let payload = buf_copy_range(buf, 8, frame_end);
        proof {
            assert(body[1] == flags);
            assert(be16_at(body, 2) == code) by {
                assert(body[2] == buf_contents(*buf)[2]);
                assert(body[3] == buf_contents(*buf)[3]);
            }
            assert(payload@ =~= body.skip(8));
            assert(payload.deep_view() =~= body.skip(8));
        }
        GoAway { flags, code, payload }
    }
}

impl Error {
    /// Parses a complete `Error` frame from the first `frame_end` bytes.
    pub fn from_buf(buf: &BytesMut, frame_end: usize) -> (r: Error)
        requires
            12 <= frame_end <= buf_contents(*buf).len(),
            buf_contents(*buf).len() <= usize::MAX,
        ensures
            parse_body(9, buf_contents(*buf).subrange(0, frame_end as int))
                == Ok::<FrameSpec, ProtocolError>(r@),
    {
        let ghost body = buf_contents(*buf).subrange(0, frame_end as int);
        let flags = buf_byte(buf, 1);
        let sequence_id = read_u32_be(buf, 2);
        let code = read_u16_be(buf, 6);
        let payload = buf_copy_range(buf, 12, frame_end);
        proof {
            assert(body[1] == flags);
            assert(be32_at(body, 2) == sequence_id) by {
                assert(body[2] == buf_contents(*buf)[2]);
                assert(body[3] == buf_contents(*buf)[3]);
                assert(body[4] == buf_contents(*buf)[4]);
                assert(body[5] == buf_contents(*buf)[5]);
            }
            assert(be16_at(body, 6) == code) by {
                assert(body[6] == buf_contents(*buf)[6]);
                assert(body[7] == buf_contents(*buf)[7]);
            }
            assert(payload@ =~= body.skip(12));
            assert(payload.deep_view() =~= body.skip(12));
        }
        Error { flags, sequence_id, code, payload }
    }
}

} // verus!
