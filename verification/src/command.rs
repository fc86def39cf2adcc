//! Commands the front end sends to the core.

use vstd::prelude::*;
use crate::protocol::TransferDirection;

verus! {

/// A command for the core.
#[derive(Debug)]
pub enum Command {
    Connect { username: String, password: String },
    Disconnect,
    Search { query: String, token: u32 },
    /// Search the users of one room.
    SearchRoom { room: String, query: String, token: u32 },
    /// Search one user's files.
    SearchUser { username: String, query: String, token: u32 },
    /// Search for a wishlist entry.
    SearchWishlist { wish_id: usize, query: String, token: u32 },
    QueueDownload { username: String, filename: String, size: u64 },
    QueueUpload { username: String, filename: String },
    CancelTransfer { id: u64 },
    PauseTransfers { direction: TransferDirection },
    ResumeTransfers { direction: TransferDirection },
    SetUploadSlots(u8),
    SetDownloadLimit(u64),
    SetUploadLimit(u64),
    JoinRoom(String),
    LeaveRoom(String),
    SendChatMessage { room: String, message: String },
    SendPrivateMessage { username: String, message: String },
    /// Add a term to the wishlist.
    AddWishlist(String),
    /// Remove the wishlist entry at an index.
    RemoveWishlist(usize),
    /// Stop responses to every search (done on disconnect).
    ClearSearchTokens,
}

} // verus!
