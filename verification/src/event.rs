//! Events the core reports to the front end.

use vstd::prelude::*;
use crate::protocol::TransferDirection;

verus! {

/// Something that happened in the core.
#[allow(inconsistent_fields)]
#[derive(Debug, Clone)]
pub enum Event {
    Connected { motd: String },
    LoginFailed { reason: String },
    Disconnected { reason: Option<String> },
    /// A search result. When the server relays a search it knows only the
    /// user and the token; file name and size come from the peer.
    SearchResult { token: u32, username: String, filename: String, size: u64 },
    /// A search of ours was sent.
    SearchStarted { token: u32, query: String },
    TransferProgress { id: u64, bytes_done: u64, total: u64, direction: TransferDirection },
    TransferRequest { username: String, filename: String, size: u64, token: u32 },
    TransferComplete { id: u64, success: bool },
    RoomJoined { room: String },
    RoomLeft { room: String },
    RoomMessage { room: String, username: String, message: String },
    PrivateMessage { username: String, message: String, timestamp: u32 },
    UserStatusChanged { username: String, status: u32 },
    UploadFailed { username: String, filename: String },
    UploadDenied { username: String, filename: String, reason: String },
    PlaceInQueue { username: String, filename: String, position: u32 },
}

} // verus!
