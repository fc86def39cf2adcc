//! A token bucket that limits bandwidth. Each second the bucket is filled
//! with the limit; a transfer takes what it wants from it, or waits for the
//! next second. A limit of 0 means no limit. A global limit is split evenly
//! between the transfers under way.

use vstd::prelude::*;
use std::time::Instant;
use crate::clock::{instant_now, millis_since};

verus! {

/// What a `TokenBucket` holds.
pub struct BucketView {
    /// Bytes left in the current second.
    pub tokens: u64,
    /// Bytes per second; 0 is no limit.
    pub limit_bps: u64,
    /// When the current second began, in milliseconds since the bucket was
    /// made.
    pub window_start_ms: u64,
}

/// A bandwidth limit.
#[derive(Debug)]
pub struct TokenBucket {
    tokens: u64,
    limit_bps: u64,
    origin: Instant,
    window_start_ms: u64,
}

impl View for TokenBucket {
    type V = BucketView;

    closed spec fn view(&self) -> BucketView {
        BucketView {
            tokens: self.tokens,
            limit_bps: self.limit_bps,
            window_start_ms: self.window_start_ms,
        }
    }
}

impl Clone for TokenBucket {
    fn clone(&self) -> (r: Self)
        ensures
            r@ == self@,
    {
        TokenBucket {
            tokens: self.tokens,
            limit_bps: self.limit_bps,
            origin: self.origin,
            window_start_ms: self.window_start_ms,
        }
    }
}

/// What to do about a request for bytes.
#[derive(Debug, Clone, Copy, PartialEq, Eq, Structural)]
pub enum Acquire {
    /// Go ahead with this many bytes.
    Granted(usize),
    /// Wait this many milliseconds, then ask again.
    Wait(u64),
}

/// The milliseconds from `now` to `deadline`, or 0 once it has passed.
pub open spec fn wait_until(deadline: int, now: int) -> u64 {
    if deadline <= now {
        0
    } else if deadline - now > u64::MAX {
        u64::MAX
    } else {
        (deadline - now) as u64
    }
}

/// Whether the second that began at `start` is over at `now`.
pub open spec fn window_over(start: u64, now: u64) -> bool {
    now >= start + 1000
}

impl TokenBucket {
    /// An empty bucket with `limit_bps` bytes per second; its first second
    /// begins now.
    pub fn new(limit_bps: u64) -> (b: Self)
        ensures
            b@ == (BucketView { tokens: 0, limit_bps, window_start_ms: 0 }),
    {
        TokenBucket { tokens: 0, limit_bps, origin: instant_now(), window_start_ms: 0 }
    }

    /// The milliseconds since the bucket was made, by the monotonic clock.
    pub fn now_ms(&self) -> u64 {
        millis_since(&self.origin)
    }

    /// Asks for `want` bytes at `now_ms`. Without a limit they are granted.
    /// Once the current second is over the bucket is filled with the limit
    /// and a new second begins now. Then the bytes are granted and taken
    /// from the bucket if it holds enough, or the caller waits until the
    /// end of the current second.
    pub fn acquire_step(&mut self, want: usize, now_ms: u64) -> (r: Acquire)
        ensures
            old(self)@.tokens <= old(self)@.limit_bps ==> final(self)@.tokens
                <= final(self)@.limit_bps,
            old(self)@.limit_bps == 0 ==> r == Acquire::Granted(want)
                && final(self)@ == old(self)@,
            old(self)@.limit_bps != 0 ==> {
                let refill = window_over(old(self)@.window_start_ms, now_ms);
                let tokens = if refill {
                    old(self)@.limit_bps
                } else {
                    old(self)@.tokens
                };
                let start = if refill {
                    now_ms
                } else {
                    old(self)@.window_start_ms
                };
                &&& final(self)@.limit_bps == old(self)@.limit_bps
                &&& final(self)@.window_start_ms == start
                &&& tokens >= want ==> r == Acquire::Granted(want) && final(self)@.tokens == tokens
                    - want
                &&& tokens < want ==> r == Acquire::Wait(wait_until(start + 1000, now_ms as int))
                    && final(self)@.tokens == tokens
            },
    {
        if self.limit_bps == 0 {
            return Acquire::Granted(want);
        }
        if self.window_start_ms <= now_ms && now_ms - self.window_start_ms >= 1000 {
            self.window_start_ms = now_ms;
            self.tokens = self.limit_bps;
        }
        if self.tokens as u128 >= want as u128 {
            self.tokens = self.tokens - want as u64;
            return Acquire::Granted(want);
        }
        let start = self.window_start_ms;
        let wait = if now_ms >= start {
            let elapsed = now_ms - start;
            if elapsed >= 1000 {
                0
            } else {
                1000 - elapsed
            }
        } else {
            let ahead = start - now_ms;
            if ahead > u64::MAX - 1000 {
                u64::MAX
            } else {
                ahead + 1000
            }
        };
        Acquire::Wait(wait)
    }

    /// A global limit split evenly between `n` transfers; 0 (no limit) when
    /// there is no transfer or no global limit.
    pub fn per_transfer_limit(global_limit: u64, n: usize) -> (r: u64)
        ensures
            r == if n == 0 || global_limit == 0 {
                0
            } else {
                global_limit / (n as u64)
            },
    {
        if n == 0 || global_limit == 0 {
            0
        } else {
            global_limit / n as u64
        }
    }
}

} // verus!
