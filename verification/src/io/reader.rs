//! The adaptive receive buffer of a download: it starts at 50 KiB, doubles
//! (up to 4 MiB) when a read fills at least half of it, and halves (down to
//! 50 KiB) when a read fills at most a sixth of it.

use vstd::prelude::*;

verus! {

/// The first receive-buffer size (50 KiB).
pub const RECV_INITIAL: usize = 51_200;
/// The largest receive-buffer size (4 MiB).
pub const RECV_MAX: usize = 4 * 1024 * 1024;
/// How many chunks the channel to the disk writer holds.
pub const CHANNEL_CAPACITY: usize = 16;
/// The first receive-buffer size.
pub const INITIAL_RECV_SIZE: usize = RECV_INITIAL;
/// The largest receive-buffer size.
pub const MAX_RECV_SIZE: usize = RECV_MAX;

/// The receive-buffer size after a read of `n` bytes into one of
/// `recv_size`.
pub open spec fn recv_size_after(recv_size: usize, n: usize) -> int {
    if n >= recv_size / 2 {
        if 2 * recv_size < RECV_MAX {
            2 * recv_size
        } else {
            RECV_MAX as int
        }
    } else if n <= recv_size / 6 {
        if recv_size / 2 > RECV_INITIAL {
            (recv_size / 2) as int
        } else {
            RECV_INITIAL as int
        }
    } else {
        recv_size as int
    }
}

/// The receive-buffer size after a read of `n` bytes.
pub fn next_recv_size(recv_size: usize, n: usize) -> (r: usize)
    requires
        n >= recv_size / 2 ==> 2 * recv_size <= usize::MAX,
    ensures
        r == recv_size_after(recv_size, n),
{
    if n >= recv_size / 2 {
        let doubled = recv_size * 2;
        if doubled < RECV_MAX {
            doubled
        } else {
            RECV_MAX
        }
    } else if n <= recv_size / 6 {
        let halved = recv_size / 2;
        if halved > RECV_INITIAL {
            halved
        } else {
            RECV_INITIAL
        }
    } else {
        recv_size
    }
}

/// From any size within the bounds, the next size is within them too.
pub proof fn law_recv_size_bounded(recv_size: usize, n: usize)
    requires
        RECV_INITIAL <= recv_size <= RECV_MAX,
    ensures
        RECV_INITIAL <= recv_size_after(recv_size, n) <= RECV_MAX,
{
}

/// The buffer follows how full the reads are: a read filling at least half
/// of it makes the next buffer larger (at most twice as large) until the
/// largest size is reached; a read filling at most a sixth of it makes the
/// next buffer smaller (at least half as large) until the first size is
/// reached; any other read leaves it as it is.
pub proof fn law_recv_size_follows_fill(recv_size: usize, n: usize)
    requires
        RECV_INITIAL <= recv_size <= RECV_MAX,
    ensures
        n >= recv_size / 2 ==> recv_size <= recv_size_after(recv_size, n) <= 2 * recv_size,
        n >= recv_size / 2 && recv_size < RECV_MAX ==> recv_size_after(recv_size, n) > recv_size,
        n <= recv_size / 6 ==> recv_size / 2 <= recv_size_after(recv_size, n) <= recv_size,
        n <= recv_size / 6 && recv_size > RECV_INITIAL ==> recv_size_after(recv_size, n)
            < recv_size,
        recv_size / 6 < n < recv_size / 2 ==> recv_size_after(recv_size, n) == recv_size,
{
}

} // verus!
