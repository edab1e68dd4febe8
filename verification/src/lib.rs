//! A length-prefixed, bidirectional request/response/push protocol and the
//! per-connection state machines that drive it on both endpoints.
//!
//! The crate is organised leaves first: the byte-list grammar and the wire
//! model (`lists`, `wire`), the framing codec over [`bytes::BytesMut`]
//! (`frames`, `codec`, `bytebuf`), the line-based upgrade codec (`upgrade`),
//! and above those the connection event handler and the client and server
//! policies (`event_handler`, `client`, `connection_handler`).

use vstd::prelude::*;

pub mod bytebuf;
pub mod client;
pub mod codec;
pub mod connection;
pub mod connection_handler;
pub mod encoding;
pub mod error;
pub mod event_handler;
pub mod handler;
pub mod frames;
pub mod id_sequence;
pub mod lists;
pub mod upgrade;
pub mod waiter;
pub mod wire;

verus! {

/// Protocol version byte asserted by both endpoints in `Hello`.
pub const VERSION: u8 = 1;

} // verus!
