//! The client's in-flight map: one waiter per outstanding request, keyed by
//! the sequence id assigned when the matching `Request` was emitted. A
//! waiter stands for a single-shot notification (the driver hands its token
//! back to the caller) with the deadline after which the request times out.
//! Resolving a sequence id removes its entry, so a waiter is resolved at
//! most once.

use vstd::prelude::*;

verus! {

/// One caller waiting for a correlated response: an opaque token naming the
/// caller's single-shot notification channel, and the instant, in
/// milliseconds, after which the request times out.
#[derive(Debug, Clone, Copy, PartialEq, Eq, Structural)]
pub struct Waiter {
    pub token: u64,
    pub deadline_ms: u64,
}

/// The map from a sequence-id prefix of entries to the map they denote,
/// later entries winning.
spec fn entries_map(s: Seq<(u32, Waiter)>) -> Map<u32, Waiter>
    decreases s.len(),
{
    if s.len() == 0 {
        Map::empty()
    } else {
        entries_map(s.drop_last()).insert(s.last().0, s.last().1)
    }
}

/// A key is in the denoted map exactly when some entry carries it.
proof fn lemma_entries_map_domain(s: Seq<(u32, Waiter)>, k: u32)
    ensures
        entries_map(s).contains_key(k) <==> exists|i: int| 0 <= i < s.len() && (#[trigger] s[i]).0
            == k,
    decreases s.len(),
{
    if s.len() == 0 {
    } else {
        lemma_entries_map_domain(s.drop_last(), k);
        if entries_map(s).contains_key(k) {
            if s.last().0 == k {
                assert(s[s.len() - 1].0 == k);
            }
        }
        if exists|i: int| 0 <= i < s.len() && (#[trigger] s[i]).0 == k {
            let i = choose|i: int| 0 <= i < s.len() && (#[trigger] s[i]).0 == k;
            if i < s.len() - 1 {
                assert(s.drop_last()[i].0 == k);
            }
        }
    }
}

/// The in-flight map of one client connection.
#[derive(Debug)]
pub struct WaiterMap {
    entries: Vec<(u32, Waiter)>,
}

impl View for WaiterMap {
    type V = Map<u32, Waiter>;

    closed spec fn view(&self) -> Map<u32, Waiter> {
        entries_map(self.entries@)
    }
}

impl WaiterMap {
    /// No two entries carry the same sequence id.
    pub closed spec fn wf(&self) -> bool {
        forall|i: int, j: int|
            0 <= i < j < self.entries@.len() ==> (#[trigger] self.entries@[i]).0 != (
            #[trigger] self.entries@[j]).0
    }

    /// An empty in-flight map.
    pub fn new() -> (r: Self)
        ensures
            r.wf(),
            r@ == Map::<u32, Waiter>::empty(),
    {
        WaiterMap { entries: Vec::new() }
    }

    /// The number of outstanding requests.
    pub fn len(&self) -> (r: usize)
        requires
            self.wf(),
        ensures
            r == self@.dom().len(),
    {
        proof {
            lemma_entries_len(self.entries@);
        }
        self.entries.len()
    }

    /// Registers a waiter under a sequence id not yet in flight.
    pub fn insert(&mut self, sequence_id: u32, waiter: Waiter)
        requires
            old(self).wf(),
            !old(self)@.contains_key(sequence_id),
        ensures
            final(self).wf(),
            final(self)@ == old(self)@.insert(sequence_id, waiter),
    {
        proof {
            lemma_entries_map_domain(self.entries@, sequence_id);
        }
        let ghost before = self.entries@;
        self.entries.push((sequence_id, waiter));
        proof {
            assert(self.entries@.drop_last() =~= before);
        }
    }

    /// Resolves a sequence id: removes and returns its waiter if one is in
    /// flight, and returns nothing otherwise, so the same id never resolves
    /// twice.
    pub fn resolve(&mut self, sequence_id: u32) -> (r: Option<Waiter>)
        requires
            old(self).wf(),
        ensures
            final(self).wf(),
            final(self)@ == old(self)@.remove(sequence_id),
            r == if old(self)@.contains_key(sequence_id) {
                Some(old(self)@[sequence_id])
            } else {
                None::<Waiter>
            },
    {
        let ghost s0 = self.entries@;
        match position_of(&self.entries, sequence_id) {
            Some(i) => {
                let (_, waiter) = self.entries.remove(i);
                proof {
                    assert(s0[i as int].0 == sequence_id);
                    lemma_entries_map_domain(s0, sequence_id);
                    lemma_entries_map_remove(s0, i as int);
                    lemma_entries_map_at(s0, i as int);
                    assert(self.entries@ == s0.remove(i as int));
                    assert forall|a: int, b: int|
                        0 <= a < b < self.entries@.len() implies (#[trigger] self.entries@[a]).0
                        != (#[trigger] self.entries@[b]).0 by {
                        if b < i {
                            assert(self.entries@[a] == s0[a] && self.entries@[b] == s0[b]);
                        } else if a < i {
                            assert(self.entries@[a] == s0[a] && self.entries@[b] == s0[b + 1]);
                        } else {
                            assert(self.entries@[a] == s0[a + 1] && self.entries@[b] == s0[b + 1]);
                        }
                    }
                }
                Some(waiter)
            }
            None => {
                proof {
                    lemma_entries_map_domain(s0, sequence_id);
                    assert(!self@.contains_key(sequence_id));
                    assert(self@.remove(sequence_id) =~= self@);
                }
                None
            }
        }
    }

    /// Empties the map and hands every outstanding waiter back, for
    /// notifying them that the connection closed.
    pub fn take_all(&mut self) -> (r: Vec<(u32, Waiter)>)
        requires
            old(self).wf(),
        ensures
            final(self).wf(),
            final(self)@ == Map::<u32, Waiter>::empty(),
            forall|i: int| 0 <= i < r@.len() ==> old(self)@.contains_key((#[trigger] r@[i]).0)
                && old(self)@[r@[i].0] == r@[i].1,
            forall|k: u32| old(self)@.contains_key(k) ==> exists|i: int| 0 <= i < r@.len() && (
            #[trigger] r@[i]).0 == k,
    {
        let ghost s0 = self.entries@;
        let mut out: Vec<(u32, Waiter)> = Vec::new();
        core::mem::swap(&mut out, &mut self.entries);
        proof {
            assert forall|i: int| 0 <= i < s0.len() implies entries_map(s0).contains_key(
                (#[trigger] s0[i]).0,
            ) && entries_map(s0)[s0[i].0] == s0[i].1 by {
                lemma_entries_map_at(s0, i);
            }
            assert forall|k: u32| entries_map(s0).contains_key(k) implies exists|i: int|
                0 <= i < s0.len() && (#[trigger] s0[i]).0 == k by {
                lemma_entries_map_domain(s0, k);
            }
        }
        out
    }
}

/// With distinct keys, each entry is present in the denoted map.
proof fn lemma_entries_map_at(s: Seq<(u32, Waiter)>, i: int)
    requires
        0 <= i < s.len(),
        forall|a: int, b: int| 0 <= a < b < s.len() ==> (#[trigger] s[a]).0 != (#[trigger] s[b]).0,
    ensures
        entries_map(s).contains_key(s[i].0),
        entries_map(s)[s[i].0] == s[i].1,
    decreases s.len(),
{
    if i == s.len() - 1 {
    } else {
        assert(forall|a: int, b: int|
            0 <= a < b < s.drop_last().len() ==> (#[trigger] s.drop_last()[a]).0 != (
            #[trigger] s.drop_last()[b]).0);
        lemma_entries_map_at(s.drop_last(), i);
        assert(s.drop_last()[i] == s[i]);
        assert(s[i].0 != s.last().0);
    }
}

/// With distinct keys, the denoted map has as many keys as there are
/// entries.
proof fn lemma_entries_len(s: Seq<(u32, Waiter)>)
    requires
        forall|a: int, b: int| 0 <= a < b < s.len() ==> (#[trigger] s[a]).0 != (#[trigger] s[b]).0,
    ensures
        entries_map(s).dom().finite(),
        entries_map(s).dom().len() == s.len(),
    decreases s.len(),
{
    if s.len() == 0 {
        assert(entries_map(s).dom() =~= Set::<u32>::empty());
    } else {
        let t = s.drop_last();
        assert(forall|a: int, b: int|
            0 <= a < b < t.len() ==> (#[trigger] t[a]).0 != (#[trigger] t[b]).0);
        lemma_entries_len(t);
        lemma_entries_map_domain(t, s.last().0);
        assert(forall|a: int| 0 <= a < t.len() ==> (#[trigger] t[a]) == s[a]);
        assert(!entries_map(t).contains_key(s.last().0));
        assert(entries_map(s).dom() =~= entries_map(t).dom().insert(s.last().0));
        vstd::set::axiom_set_insert_len(entries_map(t).dom(), s.last().0);
    }
}

/// Removing the entry at `i` removes exactly its key from the denoted map.
proof fn lemma_entries_map_remove(s: Seq<(u32, Waiter)>, i: int)
    requires
        0 <= i < s.len(),
        forall|a: int, b: int| 0 <= a < b < s.len() ==> (#[trigger] s[a]).0 != (#[trigger] s[b]).0,
    ensures
        entries_map(s.remove(i)) == entries_map(s).remove(s[i].0),
    decreases s.len(),
{
    let k = s[i].0;
    if i == s.len() - 1 {
        assert(s.remove(i) =~= s.drop_last());
        lemma_entries_map_domain(s.drop_last(), k);
        assert(forall|a: int| 0 <= a < s.drop_last().len() ==> (#[trigger] s.drop_last()[a])
            == s[a]);
        assert(!entries_map(s.drop_last()).contains_key(k));
        assert(entries_map(s.drop_last()).insert(k, s.last().1).remove(k) =~= entries_map(
            s.drop_last(),
        ));
    } else {
        let t = s.drop_last();
        assert(forall|a: int, b: int|
            0 <= a < b < t.len() ==> (#[trigger] t[a]).0 != (#[trigger] t[b]).0);
        assert(t[i] == s[i]);
        lemma_entries_map_remove(t, i);
        assert(s.remove(i).drop_last() =~= t.remove(i));
        assert(s.remove(i).last() == s.last());
        assert(entries_map(s.remove(i)) == entries_map(t.remove(i)).insert(
            s.last().0,
            s.last().1,
        ));
        assert(s.last().0 != k);
        assert(entries_map(t).remove(k).insert(s.last().0, s.last().1) =~= entries_map(t).insert(
            s.last().0,
            s.last().1,
        ).remove(k));
    }
}

/// Correlation law: resolving a sequence id removes it from the in-flight
/// map, so after one resolution the same id correlates with no waiter and
/// a second resolution returns nothing.
pub proof fn lemma_waiter_resolved_at_most_once(m: Map<u32, Waiter>, sequence_id: u32)
    ensures
        !m.remove(sequence_id).contains_key(sequence_id),
{
}


/// The position of the entry carrying `sequence_id`, if any.
fn position_of(entries: &Vec<(u32, Waiter)>, sequence_id: u32) -> (r: Option<usize>)
    ensures
        match r {
            Some(i) => i < entries@.len() && entries@[i as int].0 == sequence_id,
            None => forall|k: int| 0 <= k < entries@.len() ==> (#[trigger] entries@[k]).0
                != sequence_id,
        },
{
    let mut i: usize = 0;
    while i < entries.len()
        invariant
            i <= entries@.len(),
            forall|k: int| 0 <= k < i ==> (#[trigger] entries@[k]).0 != sequence_id,
        decreases entries@.len() - i,
    {
        if entries[i].0 == sequence_id {
            return Some(i);
        }
        i += 1;
    }
    None
}

} // verus!
