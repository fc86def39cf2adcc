//! The read-ahead of an upload: chunks start at 4 KiB and each is sized at
//! five quarters of the last send, between 4 KiB and 512 KiB, so that the
//! socket always has data waiting.

use vstd::prelude::*;

verus! {

/// The first chunk size (4 KiB).
pub const CHUNK_INITIAL: usize = 4_096;
/// The largest chunk size (512 KiB).
pub const CHUNK_MAX: usize = 512 * 1024;
/// How many chunks the channel to the socket writer holds.
pub const CHANNEL_CAPACITY: usize = 16;

/// The next chunk size after a send of `last_sent` bytes: five quarters of
/// it, rounded down, kept between `CHUNK_INITIAL` and `CHUNK_MAX`.
pub open spec fn chunk_size_after(last_sent: usize) -> int {
    let grown: int = last_sent + last_sent / 4;
    if grown < CHUNK_INITIAL {
        CHUNK_INITIAL as int
    } else if grown > CHUNK_MAX {
        CHUNK_MAX as int
    } else {
        grown
    }
}

/// The next chunk size after a send of `last_sent` bytes.
pub fn next_chunk_size(last_sent: usize) -> (r: usize)
    ensures
        r == chunk_size_after(last_sent),
        CHUNK_INITIAL <= r <= CHUNK_MAX,
{
    if last_sent > CHUNK_MAX {
        return CHUNK_MAX;
    }
    let grown = last_sent + last_sent / 4;
    if grown < CHUNK_INITIAL {
        CHUNK_INITIAL
    } else if grown > CHUNK_MAX {
        CHUNK_MAX
    } else {
        grown
    }
}

} // verus!
