//! The server side of a connection: its configuration, the handshake reply
//! to a client's `Hello` (protocol version check and encoding negotiation),
//! and the classification of delegated frames into the work the driver
//! spawns.

use vstd::prelude::*;

use crate::encoding::{clone_bytes, find_encoding, first_common};
use crate::error::TokuError;
use crate::frames::{GoAway, Hello, HelloAck, Response, TokuFrame};
use crate::handler::{DelegatedFrame, Ready};
use crate::id_sequence::IdSequence;
use crate::wire::FrameSpec;
use crate::VERSION;

verus! {

/// What a server endpoint is constructed with; the application request
/// handler itself lives outside the verified core.
#[derive(Debug, Clone, PartialEq)]
pub struct ServerConfig {
    pub max_payload_size: u32,
    pub ping_interval_ms: u32,
    pub handshake_timeout_ms: u64,
    pub supported_encodings: Vec<Vec<u8>>,
}

/// The work that one delegated frame asks of the server's driver.
#[derive(Debug)]
pub enum DelegatedAction {
    /// Run the application request handler and answer under this id.
    RespondTo { sequence_id: u32, payload: Vec<u8> },
    /// Run the application push handler, detached.
    HandlePush { payload: Vec<u8> },
    /// Responses and errors received by a server are ignored.
    Ignore,
}

/// The reply the server owes to a `Hello` with the given version and
/// offered encodings: the negotiated encoding, or the error that ends the
/// handshake.
pub open spec fn handshake_reply(version: u8, encodings: Seq<Seq<u8>>, supported: Seq<Seq<u8>>) -> Result<
    Seq<u8>,
    TokuError,
> {
    if version != VERSION {
        Err(TokuError::UnsupportedVersion { expected: VERSION, actual: version })
    } else {
        match first_common(encodings, supported) {
            Some(e) => Ok(e),
            None => Err(TokuError::NoCommonEncoding),
        }
    }
}

/// The server's per-connection policy.
pub struct ConnectionHandler {
    pub config: ServerConfig,
}

impl ConnectionHandler {
    /// A policy bound to the given configuration.
    pub fn new(config: ServerConfig) -> (r: Self)
        ensures
            r.config == config,
    {
        ConnectionHandler { config }
    }

    /// The largest payload this connection accepts.
    pub fn max_payload_size(&self) -> (r: u32)
        ensures
            r == self.config.max_payload_size,
    {
        self.config.max_payload_size
    }

    /// The server announces its close with a `GoAway`.
    pub fn send_go_away(&self) -> (r: bool)
        ensures
            r,
    {
        true
    }

    /// Handles the first framed message of a connection, which must be the
    /// client's `Hello`.
    pub fn handle_handshake_frame(
        frame: TokuFrame,
        ping_interval_ms: u32,
        supported_encodings: &Vec<Vec<u8>>,
    ) -> (r: Result<(Ready, HelloAck), TokuError>)
        ensures
            match frame {
                TokuFrame::Hello(hello) => match handshake_reply(
                    hello.version,
                    hello.encodings.deep_view(),
                    supported_encodings.deep_view(),
                ) {
                    Ok(e) => r matches Ok((ready, ack)) && ready.ping_interval_ms
                        == ping_interval_ms && ready.encoding@ == e && ack@ == (
                    FrameSpec::HelloAck {
                        flags: hello.flags,
                        ping_interval_ms,
                        encoding: e,
                        compression: None,
                    }),
                    Err(e) => r == Err::<(Ready, HelloAck), TokuError>(e),
                },
                TokuFrame::GoAway(go_away) => r == Err::<(Ready, HelloAck), TokuError>(
                    TokuError::ToldToGoAway { go_away },
                ),
                _ => r == Err::<(Ready, HelloAck), TokuError>(
                    TokuError::InvalidOpcode {
                        actual: crate::wire::opcode_of(frame@),
                        expected: Some(1),
                    },
                ),
            },
    {
        match frame {
            TokuFrame::Hello(hello) => Self::handle_handshake_hello(
                hello,
                ping_interval_ms,
                supported_encodings,
            ),
            TokuFrame::GoAway(go_away) => Err(TokuError::ToldToGoAway { go_away }),
            frame => {
                let actual = frame.opcode();
                Err(TokuError::InvalidOpcode { actual, expected: Some(1) })
            }
        }
    }

    /// Answers a client's `Hello`: rejects a foreign protocol version,
    /// negotiates the encoding, and builds the `HelloAck` and the `Ready`
    /// settings.
    pub fn handle_handshake_hello(
        hello: Hello,
        ping_interval_ms: u32,
        supported_encodings: &Vec<Vec<u8>>,
    ) -> (r: Result<(Ready, HelloAck), TokuError>)
        ensures
            match handshake_reply(
                hello.version,
                hello.encodings.deep_view(),
                supported_encodings.deep_view(),
            ) {
                Ok(e) => r matches Ok((ready, ack)) && ready.ping_interval_ms == ping_interval_ms
                    && ready.encoding@ == e && ack@ == (FrameSpec::HelloAck {
                    flags: hello.flags,
                    ping_interval_ms,
                    encoding: e,
                    compression: None,
                }),
                Err(e) => r == Err::<(Ready, HelloAck), TokuError>(e),
            },
    {
        if hello.version != VERSION {
            return Err(
                TokuError::UnsupportedVersion { expected: VERSION, actual: hello.version },
            );
        }
        match Self::negotiate_encoding(&hello.encodings, supported_encodings) {
            Ok(encoding) => {
                let ack_encoding = clone_bytes(&encoding);
                let ack = HelloAck {
                    flags: hello.flags,
                    ping_interval_ms,
                    encoding: ack_encoding,
                    compression: None,
                };
                let ready = Ready { ping_interval_ms, encoding };
                proof {
                    let e = first_common(
                        hello.encodings.deep_view(),
                        supported_encodings.deep_view(),
                    )->Some_0;
                    assert(ack.encoding.deep_view() =~= e);
                }
                Ok((ready, ack))
            }
            Err(e) => Err(e),
        }
    }

    /// Walks the client-offered encodings in order and returns the first
    /// one the supported list contains, or `NoCommonEncoding`.
    pub fn negotiate_encoding(
        client_encodings: &Vec<Vec<u8>>,
        supported_encodings: &Vec<Vec<u8>>,
    ) -> (r: Result<Vec<u8>, TokuError>)
        ensures
            match first_common(client_encodings.deep_view(), supported_encodings.deep_view()) {
                Some(e) => r matches Ok(v) && v@ == e,
                None => r == Err::<Vec<u8>, TokuError>(TokuError::NoCommonEncoding),
            },
    {
        let ghost cdv = client_encodings.deep_view();
        let ghost sdv = supported_encodings.deep_view();
        proof {
            assert(cdv.skip(0) =~= cdv);
        }
        let mut k: usize = 0;
        while k < client_encodings.len()
            invariant
                k <= client_encodings.len(),
                cdv == client_encodings.deep_view(),
                sdv == supported_encodings.deep_view(),
                first_common(cdv, sdv) == first_common(cdv.skip(k as int), sdv),
            decreases client_encodings.len() - k,
        {
            let ghost rem = cdv.skip(k as int);
            proof {
                assert(rem[0] =~= client_encodings@[k as int]@);
            }
            match find_encoding(&client_encodings[k], supported_encodings) {
                Some(i) => {
                    let v = clone_bytes(&supported_encodings[i]);
                    proof {
                        assert(supported_encodings.deep_view()[i as int] =~= supported_encodings@[
                            i as int
                        ]@);
                        assert(sdv.contains(rem[0]));
                        assert(first_common(rem, sdv) == Some(rem[0]));
                        assert(v@ == rem[0]);
                    }
                    return Ok(v);
                }
                None => {
                    proof {
                        assert(client_encodings@[k as int].deep_view() =~= client_encodings@[
                            k as int
                        ]@);
                        assert(!sdv.contains(rem[0]));
                        assert(rem.drop_first() =~= cdv.skip(k + 1));
                    }
                }
            }
            k += 1;
        }
        proof {
            assert(cdv.skip(k as int).len() == 0);
        }
        Err(TokuError::NoCommonEncoding)
    }

    /// Classifies a delegated frame into the work the driver performs: a
    /// request spawns the application handler, a push runs detached, and
    /// responses and errors received by a server are ignored.
    pub fn handle_frame(&mut self, frame: DelegatedFrame) -> (r: DelegatedAction)
        ensures
            *final(self) == *old(self),
            match frame {
                DelegatedFrame::Request(request) => r == (DelegatedAction::RespondTo {
                    sequence_id: request.sequence_id,
                    payload: request.payload,
                }),
                DelegatedFrame::Push(push) => r == (DelegatedAction::HandlePush {
                    payload: push.payload,
                }),
                DelegatedFrame::Response(_) => r == DelegatedAction::Ignore,
                DelegatedFrame::Error(_) => r == DelegatedAction::Ignore,
            },
    {
        match frame {
            DelegatedFrame::Request(request) => DelegatedAction::RespondTo {
                sequence_id: request.sequence_id,
                payload: request.payload,
            },
            DelegatedFrame::Push(push) => DelegatedAction::HandlePush { payload: push.payload },
            DelegatedFrame::Response(_) => DelegatedAction::Ignore,
            DelegatedFrame::Error(_) => DelegatedAction::Ignore,
        }
    }

    /// The periodic callback fired when a ping arrives; the server does
    /// nothing with it.
    pub fn on_ping_received(&mut self)
        ensures
            *final(self) == *old(self),
    {
    }

    /// The server has no internal events.
    pub fn handle_internal_event(&mut self, _event: (), _id_sequence: &mut IdSequence) -> (r:
        Option<TokuFrame>)
        ensures
            *final(self) == *old(self),
            *final(_id_sequence) == *old(_id_sequence),
            r is None,
    {
        None
    }

    /// Wraps a finished application computation as the `Response` frame the
    /// loop emits, correlated under the request's sequence id.
    pub fn complete_request(sequence_id: u32, response_payload: Vec<u8>) -> (r: Response)
        ensures
            r@ == (FrameSpec::Response {
                flags: 0,
                sequence_id,
                payload: response_payload.deep_view(),
            }),
    {
        Response { flags: 0, sequence_id, payload: response_payload }
    }
}

/// The goodbye frame that announces a terminal error to the peer, carrying
/// the error's mapped reason code.
pub fn go_away_for(error: &TokuError) -> (r: GoAway)
    ensures
        r@ == (FrameSpec::GoAway {
            flags: 0,
            code: error.spec_code().spec_u16(),
            payload: Seq::<u8>::empty(),
        }),
{
    let code = error.code().as_u16();
    let payload: Vec<u8> = Vec::new();
    proof {
        assert(payload.deep_view() =~= Seq::<u8>::empty());
    }
    GoAway { flags: 0, code, payload }
}

} // verus!
