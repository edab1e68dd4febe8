//! The closed error-kind enumeration of the connection layer, the `GoAway`
//! reason codes, and the mapping from one to the other.

use vstd::prelude::*;

verus! {

/// Errors raised while framing bytes into protocol frames.
#[derive(Debug, Clone, PartialEq)]
pub enum ProtocolError {
    /// The opcode byte was not one of the nine known opcodes.
    InvalidOpcode { actual: u8, expected: Option<u8> },
    /// A `Hello` or `HelloAck` payload did not match the list grammar.
    InvalidPayload,
    /// The payload size field exceeded the configured maximum.
    FrameTooLarge,
}

/// Reason codes carried by a `GoAway` frame.
#[derive(Debug, Clone, Copy, PartialEq, Eq, Structural)]
pub enum TokuErrorCode {
    /// The connection is closing cleanly.
    Normal,
    /// The connection received an opcode it cannot handle.
    InvalidOpcode,
    /// The peer asserted a protocol version this endpoint does not support.
    UnsupportedVersion,
    /// The endpoints share no payload encoding.
    NoCommonEncoding,
    /// The server chose an encoding the client did not offer.
    InvalidEncoding,
    /// The server chose a compression the client did not offer.
    InvalidCompression,
    /// No pong arrived within a ping interval.
    PingTimeout,
    /// A single request died due to an error.
    InternalServerError,
}

impl TokuErrorCode {
    /// The numeric value of this code on the wire.
    pub open spec fn spec_u16(self) -> u16 {
        match self {
            TokuErrorCode::Normal => 0,
            TokuErrorCode::InvalidOpcode => 1,
            TokuErrorCode::UnsupportedVersion => 2,
            TokuErrorCode::NoCommonEncoding => 3,
            TokuErrorCode::InvalidEncoding => 4,
            TokuErrorCode::InvalidCompression => 5,
            TokuErrorCode::PingTimeout => 6,
            TokuErrorCode::InternalServerError => 7,
        }
    }

    /// Returns the numeric value of this code on the wire.
    pub fn as_u16(&self) -> (r: u16)
        ensures
            r == self.spec_u16(),
    {
        match self {
            TokuErrorCode::Normal => 0,
            TokuErrorCode::InvalidOpcode => 1,
            TokuErrorCode::UnsupportedVersion => 2,
            TokuErrorCode::NoCommonEncoding => 3,
            TokuErrorCode::InvalidEncoding => 4,
            TokuErrorCode::InvalidCompression => 5,
            TokuErrorCode::PingTimeout => 6,
            TokuErrorCode::InternalServerError => 7,
        }
    }
}

/// Every terminal and per-request error of the connection layer.
#[derive(Debug, PartialEq)]
pub enum TokuError {
    /// The TCP stream reached end of input unexpectedly.
    TcpStreamClosed,
    /// A local caller asked the connection to close.
    ConnectionCloseRequested,
    /// The connection is closed.
    ConnectionClosed,
    /// The upgrade phase saw something other than the expected line.
    InvalidUpgradeFrame,
    /// The connection has not completed its handshake.
    NotReady,
    /// The peer announced that it is closing the connection.
    ToldToGoAway { go_away: crate::frames::GoAway },
    /// A frame arrived whose opcode is not acceptable in the current state.
    InvalidOpcode { actual: u8, expected: Option<u8> },
    /// The peer asserted a different protocol version.
    UnsupportedVersion { expected: u8, actual: u8 },
    /// The endpoints share no payload encoding.
    NoCommonEncoding,
    /// The endpoints share no payload compression.
    NoCommonCompression,
    /// The server chose an encoding the client did not offer.
    InvalidEncoding,
    /// The server chose a compression the client did not offer.
    InvalidCompression,
    /// No pong arrived within a ping interval.
    PingTimeout,
    /// An application handler failed; the diagnostic bytes are kept.
    InternalServerError { message: Vec<u8> },
    /// The event channel of the connection failed.
    EventReceiveError,
    /// Readiness could not be announced to the waiting caller.
    ReadySendFailed,
    /// A response did not arrive before the request deadline.
    RequestTimeout,
    /// Reconnecting backed off for longer than the allowed maximum.
    ReachedMaxBackoffElapsedTime,
    /// The client holds no negotiated encoding.
    NoClientEncoding,
}

impl TokuError {
    /// The `GoAway` code that announces this error to the peer.
    pub open spec fn spec_code(&self) -> TokuErrorCode {
        match self {
            TokuError::InvalidOpcode { .. } => TokuErrorCode::InvalidOpcode,
            TokuError::UnsupportedVersion { .. } => TokuErrorCode::UnsupportedVersion,
            TokuError::NoCommonEncoding => TokuErrorCode::NoCommonEncoding,
            TokuError::InvalidEncoding => TokuErrorCode::InvalidEncoding,
            TokuError::InvalidCompression => TokuErrorCode::InvalidCompression,
            TokuError::PingTimeout => TokuErrorCode::PingTimeout,
            TokuError::ConnectionCloseRequested => TokuErrorCode::Normal,
            _ => TokuErrorCode::InternalServerError,
        }
    }

    /// Maps this error to the `GoAway` code that announces it to the peer.
    pub fn code(&self) -> (r: TokuErrorCode)
        ensures
            r == self.spec_code(),
    {
        match self {
            TokuError::InvalidOpcode { .. } => TokuErrorCode::InvalidOpcode,
            TokuError::UnsupportedVersion { .. } => TokuErrorCode::UnsupportedVersion,
            TokuError::NoCommonEncoding => TokuErrorCode::NoCommonEncoding,
            TokuError::InvalidEncoding => TokuErrorCode::InvalidEncoding,
            TokuError::InvalidCompression => TokuErrorCode::InvalidCompression,
            TokuError::PingTimeout => TokuErrorCode::PingTimeout,
            TokuError::ConnectionCloseRequested => TokuErrorCode::Normal,
            _ => TokuErrorCode::InternalServerError,
        }
    }
}

} // verus!
