//! What the event handler hands back to the connection driver: the frames
//! that are delegated to the endpoint's policy, the settings produced by a
//! completed handshake, and the single action that handling one event may
//! yield.

use vstd::prelude::*;

use crate::frames::{Error, Push, Request, Response, TokuFrame};

verus! {

/// Frames that the connection itself does not interpret: they are handed to
/// the endpoint policy (requests and pushes on the server, responses and
/// errors on the client).
#[derive(Debug)]
pub enum DelegatedFrame {
    Push(Push),
    Request(Request),
    Response(Response),
    Error(Error),
}

/// Settings negotiated by a completed handshake.
#[derive(Debug, Clone, PartialEq)]
pub struct Ready {
    pub ping_interval_ms: u32,
    pub encoding: Vec<u8>,
}

/// The at-most-one action that handling a single event yields: nothing, a
/// frame to write to the socket, a frame for the endpoint policy, or an
/// internal event for the endpoint policy.
#[derive(Debug)]
pub enum EventOutcome<I> {
    Nothing,
    Emit(TokuFrame),
    Delegate(DelegatedFrame),
    Internal(I),
}

} // verus!
