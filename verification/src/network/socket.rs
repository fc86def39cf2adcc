//! Receive-buffer sizes by connection type: file connections keep the
//! system's size for throughput, distributed ones are held to 16 KiB,
//! peer ones to 204 KiB.

use vstd::prelude::*;
use crate::protocol::ConnectionType;

verus! {

/// The receive-buffer size to set on a connection, or `None` to keep the
/// system's.
pub open spec fn recv_buffer_for(t: ConnectionType) -> Option<usize> {
    match t {
        ConnectionType::FileTransfer => None,
        ConnectionType::Distributed => Some(16_384),
        ConnectionType::PeerToPeer => Some(208_896),
    }
}

/// The receive-buffer size to set on a connection of type `t`.
pub fn recv_buffer_size(t: ConnectionType) -> (r: Option<usize>)
    ensures
        r == recv_buffer_for(t),
{
    match t {
        ConnectionType::FileTransfer => None,
        ConnectionType::Distributed => Some(16_384),
        ConnectionType::PeerToPeer => Some(208_896),
    }
}

} // verus!
