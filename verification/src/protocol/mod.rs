//! The Soulseek wire protocol: integers and strings on the wire, and the
//! messages the client sends and understands.

pub mod peer_msg;
pub mod server_msg;
pub mod wire;

use vstd::prelude::*;

verus! {

/// Which way a file goes.
#[derive(Debug, Clone, Copy, PartialEq, Eq, Structural)]
pub enum TransferDirection {
    Download,
    Upload,
}

/// The kind of a connection between peers.
#[derive(Debug, Clone, Copy, PartialEq, Eq, Structural)]
pub enum ConnectionType {
    /// `P`: messages between peers.
    PeerToPeer,
    /// `F`: a file transfer.
    FileTransfer,
    /// `D`: the distributed search network.
    Distributed,
}

/// Why a message could not be read.
#[derive(Debug, Clone, Copy, PartialEq, Eq, Structural)]
pub enum ProtoError {
    /// The payload ended before the message did.
    Truncated,
}

impl ProtoError {
    /// A description of the error.
    pub fn to_string(&self) -> (r: String)
        ensures
            r@ == "message truncated"@,
    {
        String::from_str("message truncated")
    }
}

} // verus!
