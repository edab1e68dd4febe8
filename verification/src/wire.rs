//! The mathematical model of the framed wire protocol: the frame model
//! [`FrameSpec`], its exact wire form [`wire`], the parser [`parse`] that a
//! decoder must implement, and the lemmas tying the two together: encoding
//! then parsing yields the frame back, and any strict prefix of a frame's
//! wire form parses as incomplete.

use vstd::prelude::*;

use crate::error::ProtocolError;
use crate::lists::{
    all_valid_names, has_no_byte, join_with, lemma_join_no_byte, lemma_join_of_split,
    lemma_split_on_step, lemma_split_on_whole, lemma_split_term_of_join,
    lemma_valid_name_no_seps, split_on, split_term, valid_name, COMMA, PIPE,
};

verus! {

/// The two bytes of `v` in big-endian order.
pub open spec fn be16_bytes(v: u16) -> Seq<u8> {
    seq![((v >> 8) & 0xff) as u8, (v & 0xff) as u8]
}

/// The four bytes of `v` in big-endian order.
pub open spec fn be32_bytes(v: u32) -> Seq<u8> {
    seq![
        ((v >> 24) & 0xff) as u8,
        ((v >> 16) & 0xff) as u8,
        ((v >> 8) & 0xff) as u8,
        (v & 0xff) as u8,
    ]
}

/// The value of two big-endian bytes.
pub open spec fn be16_val(b0: u8, b1: u8) -> u16 {
    ((b0 as u16) << 8) | (b1 as u16)
}

/// The value of four big-endian bytes.
pub open spec fn be32_val(b0: u8, b1: u8, b2: u8, b3: u8) -> u32 {
    ((b0 as u32) << 24) | ((b1 as u32) << 16) | ((b2 as u32) << 8) | (b3 as u32)
}

/// The big-endian 16-bit value at offset `i` of `s`.
pub open spec fn be16_at(s: Seq<u8>, i: int) -> u16 {
    be16_val(s[i], s[i + 1])
}

/// The big-endian 32-bit value at offset `i` of `s`.
pub open spec fn be32_at(s: Seq<u8>, i: int) -> u32 {
    be32_val(s[i], s[i + 1], s[i + 2], s[i + 3])
}

/// Reading back the big-endian bytes of a 16-bit value yields the value.
pub proof fn lemma_be16_roundtrip(v: u16)
    ensures
        be16_at(be16_bytes(v), 0) == v,
{
    assert((((((v >> 8) & 0xff) as u8) as u16) << 8) | (((v & 0xff) as u8) as u16) == v)
        by (bit_vector);
}

/// Reading back the big-endian bytes of a 32-bit value yields the value.
pub proof fn lemma_be32_roundtrip(v: u32)
    ensures
        be32_at(be32_bytes(v), 0) == v,
{
    assert(((((v >> 24) & 0xff) as u8) as u32) << 24 | ((((v >> 16) & 0xff) as u8) as u32) << 16
        | ((((v >> 8) & 0xff) as u8) as u32) << 8 | (((v & 0xff) as u8) as u32) == v)
        by (bit_vector);
}

/// The 16-bit value read where `be16_bytes(v)` was laid down is `v`.
pub proof fn lemma_be16_concat(prefix: Seq<u8>, v: u16, suffix: Seq<u8>)
    ensures
        be16_at(prefix + be16_bytes(v) + suffix, prefix.len() as int) == v,
{
    let s = prefix + be16_bytes(v) + suffix;
    let n = prefix.len() as int;
    assert(s[n] == be16_bytes(v)[0]);
    assert(s[n + 1] == be16_bytes(v)[1]);
    lemma_be16_roundtrip(v);
}

/// The 32-bit value read where `be32_bytes(v)` was laid down is `v`.
pub proof fn lemma_be32_concat(prefix: Seq<u8>, v: u32, suffix: Seq<u8>)
    ensures
        be32_at(prefix + be32_bytes(v) + suffix, prefix.len() as int) == v,
{
    let s = prefix + be32_bytes(v) + suffix;
    let n = prefix.len() as int;
    assert(s[n] == be32_bytes(v)[0]);
    assert(s[n + 1] == be32_bytes(v)[1]);
    assert(s[n + 2] == be32_bytes(v)[2]);
    assert(s[n + 3] == be32_bytes(v)[3]);
    lemma_be32_roundtrip(v);
}

/// The mathematical model of a protocol frame.
pub enum FrameSpec {
    Hello { flags: u8, version: u8, encodings: Seq<Seq<u8>>, compressions: Seq<Seq<u8>> },
    HelloAck { flags: u8, ping_interval_ms: u32, encoding: Seq<u8>, compression: Option<Seq<u8>> },
    Ping { flags: u8, sequence_id: u32 },
    Pong { flags: u8, sequence_id: u32 },
    Request { flags: u8, sequence_id: u32, payload: Seq<u8> },
    Response { flags: u8, sequence_id: u32, payload: Seq<u8> },
    Push { flags: u8, payload: Seq<u8> },
    GoAway { flags: u8, code: u16, payload: Seq<u8> },
    Error { flags: u8, sequence_id: u32, code: u16, payload: Seq<u8> },
}

/// The opcode byte of a frame.
pub open spec fn opcode_of(f: FrameSpec) -> u8 {
    match f {
        FrameSpec::Hello { .. } => 1,
        FrameSpec::HelloAck { .. } => 2,
        FrameSpec::Ping { .. } => 3,
        FrameSpec::Pong { .. } => 4,
        FrameSpec::Request { .. } => 5,
        FrameSpec::Response { .. } => 6,
        FrameSpec::Push { .. } => 7,
        FrameSpec::GoAway { .. } => 8,
        FrameSpec::Error { .. } => 9,
    }
}

/// Whether `op` is one of the nine assigned opcodes.
pub open spec fn known_opcode(op: u8) -> bool {
    1 <= op && op <= 9
}

/// The fixed header size of each opcode, including the payload-size field
/// where the opcode has one.
pub open spec fn header_len(op: u8) -> int {
    if op == 1 {
        7
    } else if op == 2 {
        10
    } else if op == 3 {
        6
    } else if op == 4 {
        6
    } else if op == 5 {
        10
    } else if op == 6 {
        10
    } else if op == 7 {
        6
    } else if op == 8 {
        8
    } else if op == 9 {
        12
    } else {
        0
    }
}

/// The payload bytes of a frame; for `Hello` and `HelloAck` these are the
/// encoded settings lists.
pub open spec fn payload_of(f: FrameSpec) -> Seq<u8> {
    match f {
        FrameSpec::Hello { encodings, compressions, .. } => join_with(encodings, COMMA)
            + seq![PIPE] + join_with(compressions, COMMA),
        FrameSpec::HelloAck { encoding, compression, .. } => encoding + seq![PIPE] + match compression {
            Some(c) => c,
            None => Seq::empty(),
        },
        FrameSpec::Ping { .. } => Seq::empty(),
        FrameSpec::Pong { .. } => Seq::empty(),
        FrameSpec::Request { payload, .. } => payload,
        FrameSpec::Response { payload, .. } => payload,
        FrameSpec::Push { payload, .. } => payload,
        FrameSpec::GoAway { payload, .. } => payload,
        FrameSpec::Error { payload, .. } => payload,
    }
}

/// The header bytes of a frame, without the payload-size field.
pub open spec fn head_of(f: FrameSpec) -> Seq<u8> {
    match f {
        FrameSpec::Hello { flags, version, .. } => seq![1u8, flags, version],
        FrameSpec::HelloAck { flags, ping_interval_ms, .. } => seq![2u8, flags] + be32_bytes(
            ping_interval_ms,
        ),
        FrameSpec::Ping { flags, sequence_id } => seq![3u8, flags] + be32_bytes(sequence_id),
        FrameSpec::Pong { flags, sequence_id } => seq![4u8, flags] + be32_bytes(sequence_id),
        FrameSpec::Request { flags, sequence_id, .. } => seq![5u8, flags] + be32_bytes(sequence_id),
        FrameSpec::Response { flags, sequence_id, .. } => seq![6u8, flags] + be32_bytes(
            sequence_id,
        ),
        FrameSpec::Push { flags, .. } => seq![7u8, flags],
        FrameSpec::GoAway { flags, code, .. } => seq![8u8, flags] + be16_bytes(code),
        FrameSpec::Error { flags, sequence_id, code, .. } => seq![9u8, flags] + be32_bytes(
            sequence_id,
        ) + be16_bytes(code),
    }
}

/// Whether the frame carries a payload-size field on the wire.
pub open spec fn has_size_field(f: FrameSpec) -> bool {
    !(f is Ping) && !(f is Pong)
}

/// The exact wire form of a frame.
pub open spec fn wire(f: FrameSpec) -> Seq<u8> {
    if has_size_field(f) {
        head_of(f) + be32_bytes(payload_of(f).len() as u32) + payload_of(f)
    } else {
        head_of(f)
    }
}

/// A well-formed frame: list entries are valid names, and the payload fits
/// the 32-bit size field.
pub open spec fn frame_ok(f: FrameSpec) -> bool {
    match f {
        FrameSpec::Hello { encodings, compressions, .. } => all_valid_names(encodings)
            && all_valid_names(compressions) && payload_of(f).len() <= u32::MAX,
        FrameSpec::HelloAck { encoding, compression, .. } => valid_name(encoding) && match compression {
            Some(c) => valid_name(c),
            None => true,
        } && payload_of(f).len() <= u32::MAX,
        FrameSpec::Ping { .. } => true,
        FrameSpec::Pong { .. } => true,
        _ => payload_of(f).len() <= u32::MAX,
    }
}

/// What parsing a buffer yields: too few bytes yet, a protocol error, or a
/// frame together with the number of bytes it occupied.
pub enum ParseOut {
    Incomplete,
    Fail(ProtocolError),
    Parsed(FrameSpec, int),
}

/// Splits a `Hello` payload into its encoding and compression name lists.
pub open spec fn parse_hello_lists(p: Seq<u8>) -> Result<(Seq<Seq<u8>>, Seq<Seq<u8>>), ProtocolError> {
    let parts = split_on(p, PIPE);
    if parts.len() != 2 {
        Err(ProtocolError::InvalidPayload)
    } else {
        let encodings = split_term(parts[0], COMMA);
        let compressions = split_term(parts[1], COMMA);
        if all_valid_names(encodings) && all_valid_names(compressions) {
            Ok((encodings, compressions))
        } else {
            Err(ProtocolError::InvalidPayload)
        }
    }
}

/// Splits a `HelloAck` payload into the chosen encoding and the optional
/// chosen compression.
pub open spec fn parse_ack_payload(p: Seq<u8>) -> Result<(Seq<u8>, Option<Seq<u8>>), ProtocolError> {
    let parts = split_on(p, PIPE);
    if parts.len() != 2 {
        Err(ProtocolError::InvalidPayload)
    } else if !valid_name(parts[0]) {
        Err(ProtocolError::InvalidPayload)
    } else if parts[1].len() == 0 {
        Ok((parts[0], None))
    } else if valid_name(parts[1]) {
        Ok((parts[0], Some(parts[1])))
    } else {
        Err(ProtocolError::InvalidPayload)
    }
}

/// Parses one complete frame body: exactly the header and payload bytes.
pub open spec fn parse_body(op: u8, body: Seq<u8>) -> Result<FrameSpec, ProtocolError> {
    if op == 1 {
        match parse_hello_lists(body.skip(7)) {
            Ok((encodings, compressions)) => Ok(
                FrameSpec::Hello { flags: body[1], version: body[2], encodings, compressions },
            ),
            Err(e) => Err(e),
        }
    } else if op == 2 {
        match parse_ack_payload(body.skip(10)) {
            Ok((encoding, compression)) => Ok(
                FrameSpec::HelloAck {
                    flags: body[1],
                    ping_interval_ms: be32_at(body, 2),
                    encoding,
                    compression,
                },
            ),
            Err(e) => Err(e),
        }
    } else if op == 3 {
        Ok(FrameSpec::Ping { flags: body[1], sequence_id: be32_at(body, 2) })
    } else if op == 4 {
        Ok(FrameSpec::Pong { flags: body[1], sequence_id: be32_at(body, 2) })
    } else if op == 5 {
        Ok(
            FrameSpec::Request {
                flags: body[1],
                sequence_id: be32_at(body, 2),
                payload: body.skip(10),
            },
        )
    } else if op == 6 {
        Ok(
            FrameSpec::Response {
                flags: body[1],
                sequence_id: be32_at(body, 2),
                payload: body.skip(10),
            },
        )
    } else if op == 7 {
        Ok(FrameSpec::Push { flags: body[1], payload: body.skip(6) })
    } else if op == 8 {
        Ok(FrameSpec::GoAway { flags: body[1], code: be16_at(body, 2), payload: body.skip(8) })
    } else if op == 9 {
        Ok(
            FrameSpec::Error {
                flags: body[1],
                sequence_id: be32_at(body, 2),
                code: be16_at(body, 6),
                payload: body.skip(12),
            },
        )
    } else {
        Err(ProtocolError::InvalidOpcode { actual: op, expected: None })
    }
}

/// The payload size a frame header announces: the 32-bit field before the
/// payload, or zero for the opcodes that carry none.
pub open spec fn announced_size(s: Seq<u8>, op: u8) -> u32 {
    if op == 3 || op == 4 {
        0
    } else {
        be32_at(s, header_len(op) - 4)
    }
}

/// Parses the front of `s` under the payload-size limit `max`, as the
/// restartable decoder must: first the opcode and fixed header, then the
/// announced total length against the bytes present, then the size limit,
/// then the frame body.
pub open spec fn parse(s: Seq<u8>, max: u32) -> ParseOut {
    if s.len() < 1 {
        ParseOut::Incomplete
    } else {
        let op = s[0];
        if !known_opcode(op) {
            ParseOut::Fail(ProtocolError::InvalidOpcode { actual: op, expected: None })
        } else {
            let h = header_len(op);
            if s.len() < h {
                ParseOut::Incomplete
            } else {
                let psize = announced_size(s, op) as int;
                if s.len() < h + psize {
                    ParseOut::Incomplete
                } else if psize > max {
                    ParseOut::Fail(ProtocolError::FrameTooLarge)
                } else {
                    match parse_body(op, s.subrange(0, h + psize)) {
                        Ok(f) => ParseOut::Parsed(f, h + psize),
                        Err(e) => ParseOut::Fail(e),
                    }
                }
            }
        }
    }
}

/// A well-formed frame's wire form, followed by anything, parses back to
/// exactly that frame, consuming exactly its wire bytes.
#[verifier::rlimit(100)]
pub proof fn lemma_parse_wire(f: FrameSpec, rest: Seq<u8>, max: u32)
    requires
        frame_ok(f),
        payload_of(f).len() <= max,
    ensures
        parse(wire(f) + rest, max) == ParseOut::Parsed(f, wire(f).len() as int),
{
    let w = wire(f);
    let s = w + rest;
    let op = opcode_of(f);
    let h = header_len(op);
    let pl = payload_of(f);
    assert forall|i: int| 0 <= i < w.len() implies s[i] == w[i] by {}
    match f {
        FrameSpec::Ping { flags, sequence_id } => {
            assert(w == seq![3u8, flags] + be32_bytes(sequence_id));
            assert(w.len() == 6);
            assert(s[0] == 3);
            assert(s.subrange(0, 6) =~= w);
            lemma_be32_concat(seq![3u8, flags], sequence_id, Seq::empty());
            assert(seq![3u8, flags] + be32_bytes(sequence_id) + Seq::<u8>::empty() =~= w);
            assert(be32_at(w, 2) == sequence_id);
            assert(be32_at(s.subrange(0, 6), 2) == sequence_id);
            assert(w[1] == flags);
        }
        FrameSpec::Pong { flags, sequence_id } => {
            assert(w == seq![4u8, flags] + be32_bytes(sequence_id));
            assert(w.len() == 6);
            assert(s[0] == 4);
            assert(s.subrange(0, 6) =~= w);
            lemma_be32_concat(seq![4u8, flags], sequence_id, Seq::empty());
            assert(seq![4u8, flags] + be32_bytes(sequence_id) + Seq::<u8>::empty() =~= w);
            assert(be32_at(w, 2) == sequence_id);
            assert(be32_at(s.subrange(0, 6), 2) == sequence_id);
            assert(w[1] == flags);
        }
        FrameSpec::Hello { flags, version, encodings, compressions } => {
            let head = seq![1u8, flags, version];
            lemma_parse_wire_sized(f, rest, max, head);
            let body = s.subrange(0, h + pl.len());
            assert(body =~= w);
            assert(body.skip(7) =~= pl);
            lemma_hello_payload_parses(encodings, compressions);
            assert(parse_body(1, body) == Ok::<FrameSpec, ProtocolError>(f));
        }
        FrameSpec::HelloAck { flags, ping_interval_ms, encoding, compression } => {
            let head = seq![2u8, flags] + be32_bytes(ping_interval_ms);
            lemma_parse_wire_sized(f, rest, max, head);
            let body = s.subrange(0, h + pl.len());
            assert(body =~= w);
            assert(body.skip(10) =~= pl);
            lemma_ack_payload_parses(encoding, compression);
            lemma_be32_concat(seq![2u8, flags], ping_interval_ms, be32_bytes(pl.len() as u32) + pl);
            assert(seq![2u8, flags] + be32_bytes(ping_interval_ms) + (be32_bytes(pl.len() as u32)
                + pl) =~= w);
            assert(be32_at(w, 2) == ping_interval_ms);
            assert(parse_body(2, body) == Ok::<FrameSpec, ProtocolError>(f));
        }
        FrameSpec::Request { flags, sequence_id, payload } => {
            let head = seq![5u8, flags] + be32_bytes(sequence_id);
            lemma_parse_wire_sized(f, rest, max, head);
            let body = s.subrange(0, h + pl.len());
            assert(body =~= w);
            assert(body.skip(10) =~= pl);
            lemma_be32_concat(seq![5u8, flags], sequence_id, be32_bytes(pl.len() as u32) + pl);
            assert(seq![5u8, flags] + be32_bytes(sequence_id) + (be32_bytes(pl.len() as u32) + pl)
                =~= w);
            assert(be32_at(w, 2) == sequence_id);
            assert(parse_body(5, body) == Ok::<FrameSpec, ProtocolError>(f));
        }
        FrameSpec::Response { flags, sequence_id, payload } => {
            let head = seq![6u8, flags] + be32_bytes(sequence_id);
            lemma_parse_wire_sized(f, rest, max, head);
            let body = s.subrange(0, h + pl.len());
            assert(body =~= w);
            assert(body.skip(10) =~= pl);
            lemma_be32_concat(seq![6u8, flags], sequence_id, be32_bytes(pl.len() as u32) + pl);
            assert(seq![6u8, flags] + be32_bytes(sequence_id) + (be32_bytes(pl.len() as u32) + pl)
                =~= w);
            assert(be32_at(w, 2) == sequence_id);
            assert(parse_body(6, body) == Ok::<FrameSpec, ProtocolError>(f));
        }
        FrameSpec::Push { flags, payload } => {
            let head = seq![7u8, flags];
            lemma_parse_wire_sized(f, rest, max, head);
            let body = s.subrange(0, h + pl.len());
            assert(body =~= w);
            assert(body.skip(6) =~= pl);
            assert(parse_body(7, body) == Ok::<FrameSpec, ProtocolError>(f));
        }
        FrameSpec::GoAway { flags, code, payload } => {
            let head = seq![8u8, flags] + be16_bytes(code);
            lemma_parse_wire_sized(f, rest, max, head);
            let body = s.subrange(0, h + pl.len());
            assert(body =~= w);
            assert(body.skip(8) =~= pl);
            lemma_be16_concat(seq![8u8, flags], code, be32_bytes(pl.len() as u32) + pl);
            assert(seq![8u8, flags] + be16_bytes(code) + (be32_bytes(pl.len() as u32) + pl) =~= w);
            assert(be16_at(w, 2) == code);
            assert(parse_body(8, body) == Ok::<FrameSpec, ProtocolError>(f));
        }
        FrameSpec::Error { flags, sequence_id, code, payload } => {
            let head = seq![9u8, flags] + be32_bytes(sequence_id) + be16_bytes(code);
            lemma_parse_wire_sized(f, rest, max, head);
            let body = s.subrange(0, h + pl.len());
            assert(body =~= w);
            assert(body.skip(12) =~= pl);
            lemma_be32_concat(seq![9u8, flags], sequence_id, be16_bytes(code) + be32_bytes(
                pl.len() as u32,
            ) + pl);
            assert(seq![9u8, flags] + be32_bytes(sequence_id) + (be16_bytes(code) + be32_bytes(
                pl.len() as u32,
            ) + pl) =~= w);
            assert(be32_at(w, 2) == sequence_id);
            lemma_be16_concat(seq![9u8, flags] + be32_bytes(sequence_id), code, be32_bytes(
                pl.len() as u32,
            ) + pl);
            assert(seq![9u8, flags] + be32_bytes(sequence_id) + be16_bytes(code) + (be32_bytes(
                pl.len() as u32,
            ) + pl) =~= w);
            assert(be16_at(w, 6) == code);
            assert(parse_body(9, body) == Ok::<FrameSpec, ProtocolError>(f));
        }
    }
}

/// Helper for the size-field opcodes: the wire form starts with the opcode,
/// announces exactly the payload length, and spans the right byte count.
proof fn lemma_parse_wire_sized(f: FrameSpec, rest: Seq<u8>, max: u32, head: Seq<u8>)
    requires
        frame_ok(f),
        payload_of(f).len() <= max,
        has_size_field(f),
        head == head_of(f),
        head.len() == header_len(opcode_of(f)) - 4,
        head[0] == opcode_of(f),
    ensures
        wire(f).len() == header_len(opcode_of(f)) + payload_of(f).len(),
        (wire(f) + rest)[0] == opcode_of(f),
        announced_size(wire(f) + rest, opcode_of(f)) == payload_of(f).len(),
{
    let w = wire(f);
    let s = w + rest;
    let op = opcode_of(f);
    let h = header_len(op);
    let pl = payload_of(f);
    assert(w == head + be32_bytes(pl.len() as u32) + pl);
    assert(s[0] == head[0]);
    lemma_be32_concat(head, pl.len() as u32, pl + rest);
    assert(head + be32_bytes(pl.len() as u32) + (pl + rest) =~= s);
    assert(be32_at(s, h - 4) == pl.len() as u32);
}

/// The encoded `Hello` settings lists parse back to the same lists.
proof fn lemma_hello_payload_parses(encodings: Seq<Seq<u8>>, compressions: Seq<Seq<u8>>)
    requires
        all_valid_names(encodings),
        all_valid_names(compressions),
    ensures
        parse_hello_lists(join_with(encodings, COMMA) + seq![PIPE] + join_with(compressions, COMMA))
            == Ok::<_, ProtocolError>((encodings, compressions)),
{
    let je = join_with(encodings, COMMA);
    let jc = join_with(compressions, COMMA);
    let p = je + seq![PIPE] + jc;
    assert forall|i: int| 0 <= i < encodings.len() implies has_no_byte(
        #[trigger] encodings[i],
        PIPE,
    ) by {
        lemma_valid_name_no_seps(encodings[i]);
    }
    assert forall|i: int| 0 <= i < compressions.len() implies has_no_byte(
        #[trigger] compressions[i],
        PIPE,
    ) by {
        lemma_valid_name_no_seps(compressions[i]);
    }
    lemma_join_no_byte(encodings, COMMA, PIPE);
    lemma_join_no_byte(compressions, COMMA, PIPE);
    lemma_split_on_step(je, jc, PIPE);
    lemma_split_on_whole(jc, PIPE);
    let parts = split_on(p, PIPE);
    assert(parts =~= seq![je, jc]);
    lemma_split_term_of_join(encodings, COMMA);
    lemma_split_term_of_join(compressions, COMMA);
}

/// The encoded `HelloAck` settings parse back to the same choice.
proof fn lemma_ack_payload_parses(encoding: Seq<u8>, compression: Option<Seq<u8>>)
    requires
        valid_name(encoding),
        match compression {
            Some(c) => valid_name(c),
            None => true,
        },
    ensures
        parse_ack_payload(
            encoding + seq![PIPE] + match compression {
                Some(c) => c,
                None => Seq::empty(),
            },
        ) == Ok::<_, ProtocolError>((encoding, compression)),
{
    let comp = match compression {
        Some(c) => c,
        None => Seq::<u8>::empty(),
    };
    let p = encoding + seq![PIPE] + comp;
    lemma_valid_name_no_seps(encoding);
    lemma_split_on_step(encoding, comp, PIPE);
    match compression {
        Some(c) => {
            lemma_valid_name_no_seps(c);
            lemma_split_on_whole(c, PIPE);
        }
        None => {
            lemma_split_on_whole(Seq::empty(), PIPE);
        }
    }
    let parts = split_on(p, PIPE);
    assert(parts =~= seq![encoding, comp]);
}

/// Any strict prefix of a well-formed frame's wire form parses as
/// incomplete: a lazy decoder neither fails nor consumes on partial input.
#[verifier::rlimit(100)]
pub proof fn lemma_parse_prefix(f: FrameSpec, k: int, max: u32)
    requires
        frame_ok(f),
        0 <= k < wire(f).len(),
    ensures
        parse(wire(f).take(k), max) == ParseOut::Incomplete,
{
    let w = wire(f);
    let p = w.take(k);
    let op = opcode_of(f);
    let h = header_len(op);
    let pl = payload_of(f);
    lemma_parse_wire(f, Seq::empty(), u32::MAX);
    assert(w + Seq::empty() =~= w);
    if k == 0 {
    } else {
        assert(p[0] == w[0]);
        assert(w[0] == op) by {
            assert(parse(w, u32::MAX) is Parsed);
        }
        if k < h {
        } else {
            assert(announced_size(p, op) == announced_size(w, op)) by {
                if op != 3 && op != 4 {
                    assert(p[h - 4] == w[h - 4]);
                    assert(p[h - 3] == w[h - 3]);
                    assert(p[h - 2] == w[h - 2]);
                    assert(p[h - 1] == w[h - 1]);
                }
            }
            assert(announced_size(w, op) == pl.len()) by {
                assert(parse(w, u32::MAX) == ParseOut::Parsed(f, w.len() as int));
            }
            assert(p.len() < h + announced_size(p, op));
        }
    }
}

/// Every successfully parsed frame is well formed, observes the size limit,
/// and occupied at least its header's bytes.
pub proof fn lemma_parse_ok(s: Seq<u8>, max: u32, f: FrameSpec, n: int)
    requires
        parse(s, max) == ParseOut::Parsed(f, n),
    ensures
        frame_ok(f),
        payload_of(f).len() <= max,
        header_len(s[0]) <= n <= s.len(),
        opcode_of(f) == s[0],
{
    let op = s[0];
    let h = header_len(op);
    let psize = announced_size(s, op) as int;
    let body = s.subrange(0, h + psize);
    match parse_body(op, body) {
        Ok(g) => {
            assert(g == f);
            lemma_parse_body_ok(op, body, f, psize, max);
        }
        Err(_) => {}
    }
}

/// A parsed body yields a well-formed frame whose payload is no longer than
/// the body's payload region.
proof fn lemma_parse_body_ok(op: u8, body: Seq<u8>, f: FrameSpec, psize: int, max: u32)
    requires
        known_opcode(op),
        parse_body(op, body) == Ok::<FrameSpec, ProtocolError>(f),
        body.len() == header_len(op) + psize,
        0 <= psize <= max,
    ensures
        frame_ok(f),
        payload_of(f).len() <= max,
        opcode_of(f) == op,
{
    if op == 1 {
        let p = body.skip(7);
        assert(p.len() == psize);
        lemma_hello_lists_len(p);
    } else if op == 2 {
        let p = body.skip(10);
        assert(p.len() == psize);
        lemma_ack_payload_len(p);
    }
}

/// A `Hello` payload that parses re-encodes to at most its own length.
proof fn lemma_hello_lists_len(p: Seq<u8>)
    requires
        parse_hello_lists(p) is Ok,
    ensures
        ({
            let (encodings, compressions) = parse_hello_lists(p)->Ok_0;
            join_with(encodings, COMMA) + seq![PIPE] + join_with(compressions, COMMA)
        }).len() <= p.len(),
{
    let parts = split_on(p, PIPE);
    lemma_join_of_split(p, PIPE);
    assert(join_with(parts, PIPE) == p);
    assert(parts.len() == 2);
    assert(join_with(parts, PIPE) == parts[0] + seq![PIPE] + join_with(parts.drop_first(), PIPE));
    assert(parts.drop_first() =~= seq![parts[1]]);
    assert(join_with(seq![parts[1]], PIPE) == parts[1]);
    assert(p.len() == parts[0].len() + 1 + parts[1].len());
    lemma_split_term_join_len(parts[0], COMMA);
    lemma_split_term_join_len(parts[1], COMMA);
}

/// A `HelloAck` payload that parses re-encodes to exactly its own length.
proof fn lemma_ack_payload_len(p: Seq<u8>)
    requires
        parse_ack_payload(p) is Ok,
    ensures
        ({
            let (encoding, compression) = parse_ack_payload(p)->Ok_0;
            encoding + seq![PIPE] + match compression {
                Some(c) => c,
                None => Seq::<u8>::empty(),
            }
        }).len() <= p.len(),
{
    let parts = split_on(p, PIPE);
    lemma_join_of_split(p, PIPE);
    assert(parts.len() == 2);
    assert(join_with(parts, PIPE) == parts[0] + seq![PIPE] + join_with(parts.drop_first(), PIPE));
    assert(parts.drop_first() =~= seq![parts[1]]);
    assert(join_with(seq![parts[1]], PIPE) == parts[1]);
    assert(p.len() == parts[0].len() + 1 + parts[1].len());
}

/// Splitting with a discarded terminator and re-joining never grows a list.
proof fn lemma_split_term_join_len(s: Seq<u8>, sep: u8)
    ensures
        join_with(split_term(s, sep), sep).len() <= s.len(),
{
    if s.len() == 0 {
    } else if s.last() == sep {
        lemma_join_of_split(s.take(s.len() - 1), sep);
    } else {
        lemma_join_of_split(s, sep);
    }
}


/// Codec round trip: a well-formed frame within the size limit, encoded and
/// then parsed, yields the frame back with the whole buffer consumed.
pub proof fn lemma_round_trip(f: FrameSpec, max: u32)
    requires
        frame_ok(f),
        payload_of(f).len() <= max,
    ensures
        parse(wire(f), max) == ParseOut::Parsed(f, wire(f).len() as int),
{
    lemma_parse_wire(f, Seq::empty(), max);
    assert(wire(f) + Seq::<u8>::empty() =~= wire(f));
}

} // verus!
