//! Finding where a resource begins in a buffer.

use vstd::prelude::*;
use crate::error::DecodeError;

verus! {

/// The bytes of `marker` stand in `buf` from offset `at` on.
pub open spec fn occurs_at(buf: Seq<u8>, marker: Seq<u8>, at: int) -> bool {
    &&& 0 <= at
    &&& at + marker.len() <= buf.len()
    &&& buf.subrange(at, at + marker.len()) == marker
}

/// `marker` occurs in `buf` at offset `at` and at no offset before it.
pub open spec fn is_first_occurrence(buf: Seq<u8>, marker: Seq<u8>, at: int) -> bool {
    &&& occurs_at(buf, marker, at)
    &&& forall|before: int| 0 <= before < at ==> !occurs_at(buf, marker, before)
}

/// The least offset at which `marker` occurs in `buf`, if it occurs at all.
pub open spec fn first_occurrence(buf: Seq<u8>, marker: Seq<u8>) -> Option<int> {
    if exists|at: int| is_first_occurrence(buf, marker, at) {
        Some(choose|at: int| is_first_occurrence(buf, marker, at))
    } else {
        None
    }
}

/// The bytes of `marker` stand in `buffer` from offset `at` on.
fn matches_at(buffer: &[u8], marker: &[u8], at: usize) -> (found: bool)
    requires
        at + marker@.len() <= buffer@.len(),
    ensures
        found == occurs_at(buffer@, marker@, at as int),
{
    let len = buffer.len();
    let mut k: usize = 0;
    while k < marker.len()
        invariant
            k <= marker@.len(),
            at + marker@.len() <= buffer@.len(),
            len == buffer@.len(),
            forall|j: int| 0 <= j < k ==> buffer@[at + j] == marker@[j],
        decreases marker@.len() - k,
    {
        if buffer[at + k] != marker[k] {
            assert(buffer@.subrange(at as int, at + marker@.len())[k as int] != marker@[k as int]);
            return false;
        }
        k = k + 1;
    }
    assert(buffer@.subrange(at as int, at + marker@.len()) =~= marker@);
    true
}

/// Searches `buffer` from its start for `marker` and returns the offset of
/// the first occurrence.
pub fn find_marker(buffer: &[u8], marker: &[u8]) -> (r: Result<usize, DecodeError>)
    ensures
        match r {
            Ok(at) => {
                &&& is_first_occurrence(buffer@, marker@, at as int)
                &&& first_occurrence(buffer@, marker@) == Some(at as int)
            },
            Err(e) => {
                &&& e == DecodeError::MarkerNotFound
                &&& forall|at: int| !occurs_at(buffer@, marker@, at)
                &&& first_occurrence(buffer@, marker@) is None
            },
        },
{
    if marker.len() > buffer.len() {
        return Err(DecodeError::MarkerNotFound);
    }
    let last = buffer.len() - marker.len();
    let mut at: usize = 0;
    loop
        invariant
            at <= last,
            last + marker@.len() == buffer@.len(),
            forall|before: int| 0 <= before < at ==> !occurs_at(buffer@, marker@, before),
        decreases last - at,
    {
        if matches_at(buffer, marker, at) {
            proof {
                lemma_first_occurrence(buffer@, marker@, at as int);
            }
            return Ok(at);
        }
        if at == last {
            return Err(DecodeError::MarkerNotFound);
        }
        at = at + 1;
    }
}

/// A marker has at most one first occurrence.
pub proof fn lemma_first_occurrence(buf: Seq<u8>, marker: Seq<u8>, at: int)
    requires
        is_first_occurrence(buf, marker, at),
    ensures
        first_occurrence(buf, marker) == Some(at),
{
    let chosen = choose|at: int| is_first_occurrence(buf, marker, at);
    assert(is_first_occurrence(buf, marker, chosen));
    if chosen < at {
        assert(!occurs_at(buf, marker, chosen));
    }
    if at < chosen {
        assert(!occurs_at(buf, marker, at));
    }
}

} // verus!
