//! The connections to the server and to peers: framing, the session with
//! the server, peer messages and socket settings.

pub mod framing;
pub mod peer;
pub mod server;
pub mod socket;
pub mod state;
