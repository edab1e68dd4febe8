//! Encoding names and their negotiation: the server walks the client's
//! offered list in order and selects the first name its own supported list
//! contains.

use vstd::prelude::*;

use crate::frames::vec_copy_range;

verus! {

/// The first client-offered name that the supported list contains, walking
/// the client list in order.
pub open spec fn first_common(client: Seq<Seq<u8>>, supported: Seq<Seq<u8>>) -> Option<Seq<u8>>
    decreases client.len(),
{
    if client.len() == 0 {
        None
    } else if supported.contains(client[0]) {
        Some(client[0])
    } else {
        first_common(client.drop_first(), supported)
    }
}

/// Byte-for-byte equality of two byte vectors.
pub fn bytes_eq(a: &Vec<u8>, b: &Vec<u8>) -> (r: bool)
    ensures
        r == (a@ == b@),
{
    if a.len() != b.len() {
        proof {
            if a@ == b@ {
                assert(a@.len() == b@.len());
            }
        }
        return false;
    }
    let mut i: usize = 0;
    while i < a.len()
        invariant
            i <= a.len(),
            a.len() == b.len(),
            forall|k: int| 0 <= k < i ==> a@[k] == b@[k],
        decreases a.len() - i,
    {
        if a[i] != b[i] {
            return false;
        }
        i += 1;
    }
    proof {
        assert(a@ =~= b@);
    }
    true
}

/// A copy of a byte vector.
pub fn clone_bytes(v: &Vec<u8>) -> (r: Vec<u8>)
    ensures
        r@ == v@,
{
    vec_copy_range(v, 0, v.len())
}

/// A copy of a list of names.
pub fn clone_names(names: &Vec<Vec<u8>>) -> (r: Vec<Vec<u8>>)
    ensures
        r.deep_view() == names.deep_view(),
{
    let mut out: Vec<Vec<u8>> = Vec::new();
    let mut i: usize = 0;
    while i < names.len()
        invariant
            i <= names.len(),
            out@.len() == i,
            forall|k: int| 0 <= k < i ==> out@[k]@ == names@[k]@,
        decreases names.len() - i,
    {
        out.push(clone_bytes(&names[i]));
        i += 1;
    }
    proof {
        assert(out.deep_view() =~~= names.deep_view());
    }
    out
}

/// Looks `encoding` up in the supported list, returning its position.
pub fn find_encoding(encoding: &Vec<u8>, supported: &Vec<Vec<u8>>) -> (r: Option<usize>)
    ensures
        match r {
            Some(i) => i < supported@.len() && supported@[i as int]@ == encoding@
                && supported.deep_view().contains(encoding.deep_view()),
            None => !supported.deep_view().contains(encoding.deep_view()),
        },
{
    let mut i: usize = 0;
    while i < supported.len()
        invariant
            i <= supported.len(),
            forall|k: int| 0 <= k < i ==> supported@[k]@ != encoding@,
        decreases supported.len() - i,
    {
        if bytes_eq(&supported[i], encoding) {
            proof {
                assert(supported.deep_view()[i as int] =~= encoding.deep_view());
            }
            return Some(i);
        }
        i += 1;
    }
    proof {
        assert forall|k: int| 0 <= k < supported.deep_view().len() implies supported.deep_view()[k]
            != encoding.deep_view() by {
            assert(supported.deep_view()[k] =~= supported@[k]@);
            assert(encoding.deep_view() =~= encoding@);
        }
    }
    None
}

} // verus!
