//! The states of the connection to the server, and its counters.

use vstd::prelude::*;

verus! {

/// Where the connection to the server stands.
#[derive(Debug, Clone, Copy, PartialEq, Eq, Structural)]
pub enum ConnectionState {
    Disconnected,
    Connecting,
    Authenticating,
    Connected,
    Disconnecting,
}

/// The name of a connection state.
pub open spec fn connection_state_name(s: ConnectionState) -> Seq<char> {
    match s {
        ConnectionState::Disconnected => "Disconnected"@,
        ConnectionState::Connecting => "Connecting"@,
        ConnectionState::Authenticating => "Authenticating"@,
        ConnectionState::Connected => "Connected"@,
        ConnectionState::Disconnecting => "Disconnecting"@,
    }
}

impl ConnectionState {
    /// The name of the state.
    pub fn to_string(&self) -> (r: String)
        ensures
            r@ == connection_state_name(*self),
    {
        match self {
            ConnectionState::Disconnected => String::from_str("Disconnected"),
            ConnectionState::Connecting => String::from_str("Connecting"),
            ConnectionState::Authenticating => String::from_str("Authenticating"),
            ConnectionState::Connected => String::from_str("Connected"),
            ConnectionState::Disconnecting => String::from_str("Disconnecting"),
        }
    }
}

/// Why the connection ended.
#[derive(Debug, Clone, Copy, PartialEq, Eq, Structural)]
pub enum DisconnectReason {
    UserRequested,
    ServerClosed,
    ConnectionFailed,
    LoginRejected,
    Timeout,
}

/// Traffic counters of the connection to the server; they wrap around.
#[derive(Debug, Clone, Copy, PartialEq, Eq, Structural)]
pub struct ServerStats {
    pub bytes_sent: u64,
    pub bytes_recv: u64,
    pub messages_sent: u64,
    pub messages_recv: u64,
}

impl ServerStats {
    /// All counters at 0.
    pub fn new() -> (s: Self)
        ensures
            s == (ServerStats { bytes_sent: 0, bytes_recv: 0, messages_sent: 0, messages_recv: 0 }),
    {
        ServerStats { bytes_sent: 0, bytes_recv: 0, messages_sent: 0, messages_recv: 0 }
    }

    /// Sets all counters back to 0.
    pub fn reset(&mut self)
        ensures
            *final(self) == (ServerStats {
                bytes_sent: 0,
                bytes_recv: 0,
                messages_sent: 0,
                messages_recv: 0,
            }),
    {
        self.bytes_sent = 0;
        self.bytes_recv = 0;
        self.messages_sent = 0;
        self.messages_recv = 0;
    }

    /// Counts a received message whose frame length (code and payload) is
    /// `frame_len`: the length field and the frame are counted as bytes.
    pub fn record_received(&mut self, frame_len: u32)
        ensures
            final(self).bytes_recv == (old(self).bytes_recv + 4 + frame_len) % 0x1_0000_0000_0000_0000,
            final(self).messages_recv == (old(self).messages_recv + 1) % 0x1_0000_0000_0000_0000,
            final(self).bytes_sent == old(self).bytes_sent,
            final(self).messages_sent == old(self).messages_sent,
    {
        let add: u64 = 4 + frame_len as u64;
        self.bytes_recv = self.bytes_recv.wrapping_add(add);
        self.messages_recv = self.messages_recv.wrapping_add(1);
    }
}

impl Default for ServerStats {
    fn default() -> (s: Self)
        ensures
            s == (ServerStats { bytes_sent: 0, bytes_recv: 0, messages_sent: 0, messages_recv: 0 }),
    {
        ServerStats::new()
    }
}

} // verus!
