//! The per-connection sequence-id allocator: a monotonic 32-bit counter
//! starting at 1, allocated only by the connection's event loop. Wrapping is
//! out of scope: the counter caps at `u32::MAX` and callers must stay below
//! it, so an id is never reused while the connection lives.

use vstd::prelude::*;

verus! {

/// Allocates correlation ids for pings and requests on one connection.
#[derive(Debug, Clone, Copy, PartialEq, Eq, Structural)]
pub struct IdSequence {
    pub next_id: u32,
}

impl IdSequence {
    /// A fresh allocator whose first id is 1.
    pub fn new() -> (s: Self)
        ensures
            s.next_id == 1,
    {
        IdSequence { next_id: 1 }
    }

    /// Allocates the next id: returns the current counter and advances it,
    /// so no two calls ever return the same id.
    pub fn next(&mut self) -> (r: u32)
        requires
            old(self).next_id < u32::MAX,
        ensures
            r == old(self).next_id,
            final(self).next_id == old(self).next_id + 1,
    {
        let r = self.next_id;
        self.next_id = self.next_id + 1;
        r
    }
}

} // verus!
