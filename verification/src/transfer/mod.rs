//! Transfers: their identifiers and states, the bookkeeping of a download
//! (with the fix for sizes of 2 GiB and more), the upload queue, retry
//! delays and the names of incomplete files.

pub mod incomplete;
pub mod retry;
pub mod upload;

use vstd::prelude::*;
use std::time::Instant;
use crate::clock::instant_now;
use crate::protocol::TransferDirection;

verus! {

/// Identifies a transfer.
#[derive(Debug, Clone, Copy, PartialEq, Eq, Hash, Structural)]
pub struct TransferId(pub u64);

/// Where a transfer stands.
#[derive(Debug, Clone, PartialEq, Eq)]
pub enum TransferState {
    Queued,
    GettingStatus,
    Connecting,
    Handshaking,
    Transferring,
    Finished,
    Failed(TransferFailure),
    Paused { offset: u64 },
}

/// Why a transfer failed.
#[derive(Debug, Clone, PartialEq, Eq)]
pub enum TransferFailure {
    ConnectionTimeout,
    ConnectionRefused,
    ConnectionClosed,
    LocalFileError,
    RemoteError,
    UserCancelled,
}

/// One file transfer.
#[derive(Debug)]
pub struct Transfer {
    pub id: TransferId,
    pub direction: TransferDirection,
    pub username: String,
    pub virtual_path: String,
    pub file_size: u64,
    pub token: u32,
    pub state: TransferState,
    pub bytes_transferred: u64,
    pub offset: u64,
    pub queued_at: Instant,
    pub started_at: Option<Instant>,
}

/// The bytes still to move when `done` of `size` bytes are there: none
/// once `done` reaches `size`.
pub open spec fn remaining(size: u64, done: int) -> u64 {
    if done >= size {
        0
    } else {
        (size - done) as u64
    }
}

impl Transfer {
    /// A queued transfer with nothing moved yet, queued now.
    pub fn new(
        id: TransferId,
        direction: TransferDirection,
        username: String,
        virtual_path: String,
        file_size: u64,
        token: u32,
    ) -> (t: Self)
        ensures
            t.id == id,
            t.direction == direction,
            t.username == username,
            t.virtual_path == virtual_path,
            t.file_size == file_size,
            t.token == token,
            t.state == TransferState::Queued,
            t.bytes_transferred == 0,
            t.offset == 0,
            t.started_at.is_none(),
    {
        Transfer {
            id,
            direction,
            username,
            virtual_path,
            file_size,
            token,
            state: TransferState::Queued,
            bytes_transferred: 0,
            offset: 0,
            queued_at: instant_now(),
            started_at: None,
        }
    }

    /// Whether the bytes moved, counted from the offset, reach the file size.
    pub fn is_complete(&self) -> (r: bool)
        requires
            self.bytes_transferred + self.offset <= u64::MAX,
        ensures
            r == (self.bytes_transferred + self.offset >= self.file_size),
    {
        self.bytes_transferred + self.offset >= self.file_size
    }

    /// The bytes still to move.
    pub fn bytes_remaining(&self) -> (r: u64)
        requires
            self.bytes_transferred + self.offset <= u64::MAX,
        ensures
            r == remaining(self.file_size, self.bytes_transferred + self.offset),
    {
        let done = self.bytes_transferred + self.offset;
        if done >= self.file_size {
            0
        } else {
            self.file_size - done
        }
    }
}

/// What a download keeps track of.
#[derive(Debug)]
pub struct DownloadState {
    pub expected_size: u64,
    pub bytes_received: u64,
    pub resume_offset: u64,
    /// The size learnt earlier (from the search response), if any.
    pub cached_size: Option<u64>,
}

/// The size to expect when the peer announces `announced` and `cached` was
/// learnt earlier. Some clients announce 0 for files of 2 GiB and more;
/// then a positive cached size is used instead.
pub open spec fn size_to_expect(announced: u64, cached: Option<u64>) -> u64 {
    match cached {
        Some(s) => if announced == 0 && s > 0 {
            s
        } else {
            announced
        },
        None => announced,
    }
}

impl DownloadState {
    /// A download of `file_size` bytes resumed at `resume_offset`.
    pub fn new(file_size: u64, resume_offset: u64) -> (d: Self)
        ensures
            d.expected_size == file_size,
            d.bytes_received == 0,
            d.resume_offset == resume_offset,
            d.cached_size.is_none(),
    {
        DownloadState { expected_size: file_size, bytes_received: 0, resume_offset, cached_size: None }
    }

    /// Takes the size the peer announces, falling back on the cached size
    /// when the announced one is 0.
    pub fn apply_size(&mut self, file_size: u64)
        ensures
            final(self).expected_size == size_to_expect(file_size, old(self).cached_size),
            final(self).bytes_received == old(self).bytes_received,
            final(self).resume_offset == old(self).resume_offset,
            final(self).cached_size == old(self).cached_size,
    {
        match self.cached_size {
            Some(s) => {
                if file_size == 0 && s > 0 {
                    self.expected_size = s;
                } else {
                    self.expected_size = file_size;
                }
            },
            None => {
                self.expected_size = file_size;
            },
        }
    }

    /// Whether the bytes received, counted from the resume offset, reach the
    /// expected size.
    pub fn is_complete(&self) -> (r: bool)
        requires
            self.bytes_received + self.resume_offset <= u64::MAX,
        ensures
            r == (self.bytes_received + self.resume_offset >= self.expected_size),
    {
        self.bytes_received + self.resume_offset >= self.expected_size
    }

    /// The bytes still to receive.
    pub fn bytes_remaining(&self) -> (r: u64)
        requires
            self.bytes_received + self.resume_offset <= u64::MAX,
        ensures
            r == remaining(self.expected_size, self.bytes_received + self.resume_offset),
    {
        let done = self.bytes_received + self.resume_offset;
        if done >= self.expected_size {
            0
        } else {
            self.expected_size - done
        }
    }
}

/// A download is complete exactly when nothing remains to receive.
pub proof fn law_complete_iff_nothing_remains(expected: u64, done: int)
    requires
        0 <= done,
    ensures
        (done >= expected) == (remaining(expected, done) == 0),
        remaining(expected, done) + done >= expected,
{
}

} // verus!
