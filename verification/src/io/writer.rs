//! Progress of a writer (to disk for a download, to the socket for an
//! upload): it stops once the expected number of bytes is written.

use vstd::prelude::*;

verus! {

/// The bytes written after a chunk of `chunk_len` bytes, and whether the
/// writer is done: it is once `expected` bytes are written.
pub fn after_chunk(written: u64, chunk_len: usize, expected: u64) -> (r: (u64, bool))
    requires
        written + chunk_len <= u64::MAX,
    ensures
        r.0 == written + chunk_len,
        r.1 == (written + chunk_len >= expected),
{
    let total = written + chunk_len as u64;
    (total, total >= expected)
}

} // verus!
