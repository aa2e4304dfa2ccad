//! Storage keys and comparison of byte strings.

use vstd::prelude::*;

verus! {

/// The key under which the poll's text is stored: the bytes of `poll`.
pub const POLL_KEY: [u8; 4] = [112, 111, 108, 108];

/// The key under which the tally is stored: the bytes of `tally`.
pub const TALLY_KEY: [u8; 5] = [116, 97, 108, 108, 121];

/// Whether two byte strings are equal.
pub fn same_bytes(a: &[u8], b: &[u8]) -> (r: bool)
    ensures
        r == (a@ == b@),
{
    if a.len() != b.len() {
        return false;
    }
    let mut i: usize = 0;
    while i < a.len()
        invariant
            a.len() == b.len(),
            i <= a.len(),
            forall|j: int| 0 <= j < i ==> a@[j] == b@[j],
        decreases a.len() - i,
    {
        if a[i] != b[i] {
            return false;
        }
        i += 1;
    }
    assert(a@ =~= b@);
    true
}

/// Whether `id` is one of the two keys that hold the poll's own records, which
/// therefore cannot name a voter.
pub open spec fn is_reserved(id: Seq<u8>) -> bool {
    id == POLL_KEY@ || id == TALLY_KEY@
}

/// Whether `id` is one of the two reserved keys.
pub fn reserved(id: &[u8]) -> (r: bool)
    ensures
        r == is_reserved(id@),
{
    same_bytes(id, POLL_KEY.as_slice()) || same_bytes(id, TALLY_KEY.as_slice())
}

} // verus!
