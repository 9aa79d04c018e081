//! Byte strings.

use vstd::prelude::*;
use vstd::slice::slice_subrange;

verus! {

/// Whether two byte strings hold the same bytes.
pub fn bytes_eq(a: &[u8], b: &[u8]) -> (r: bool)
    ensures
        r == (a@ == b@),
{
    if a.len() != b.len() {
        return false;
    }
    let mut i: usize = 0;
    while i < a.len()
        invariant
            i <= a.len(),
            a.len() == b.len(),
            forall|k: int| 0 <= k < i ==> a[k] == b[k],
        decreases a.len() - i,
    {
        if a[i] != b[i] {
            return false;
        }
        i += 1;
    }
    assert(a@ =~= b@);
    true
}

/// A copy of the bytes of `s` from `from` up to `to`.
pub fn copy_of(s: &[u8], from: usize, to: usize) -> (r: Vec<u8>)
    requires
        from <= to <= s.len(),
    ensures
        r@ == s@.subrange(from as int, to as int),
{
    let mut out: Vec<u8> = Vec::new();
    out.extend_from_slice(slice_subrange(s, from, to));
    assert(out@ =~= s@.subrange(from as int, to as int));
    out
}

/// Whether `needle` occurs in `hay` at `at`.
pub open spec fn occurs_at(hay: Seq<u8>, needle: Seq<u8>, at: int) -> bool {
    0 <= at && at + needle.len() <= hay.len() && hay.subrange(at, at + needle.len()) == needle
}

/// Whether `needle` occurs in `hay`.
pub open spec fn contains(hay: Seq<u8>, needle: Seq<u8>) -> bool {
    exists|at: int| occurs_at(hay, needle, at)
}

/// Whether `needle` occurs in `hay`.
pub fn contains_bytes(hay: &[u8], needle: &[u8]) -> (r: bool)
    ensures
        r == contains(hay@, needle@),
{
    if needle.len() > hay.len() {
        assert forall|at: int| !occurs_at(hay@, needle@, at) by {}
        return false;
    }
    if needle.len() == 0 {
        assert(hay@.subrange(0, 0) =~= needle@);
        assert(occurs_at(hay@, needle@, 0));
        return true;
    }
    let len = hay.len();
    let last = len - needle.len();
    let mut at: usize = 0;
    while at <= last
        invariant
            len == hay@.len(),
            needle@.len() > 0,
            last == hay@.len() - needle@.len(),
            at <= last + 1,
            forall|k: int| 0 <= k < at ==> !occurs_at(hay@, needle@, k),
        decreases last + 1 - at,
    {
        if bytes_eq(slice_subrange(hay, at, at + needle.len()), needle) {
            assert(occurs_at(hay@, needle@, at as int));
            return true;
        }
        at += 1;
    }
    assert forall|k: int| !occurs_at(hay@, needle@, k) by {}
    false
}

} // verus!
