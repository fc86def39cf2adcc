//! What the client needs to log in.

use vstd::prelude::*;

verus! {

/// Settings of a session.
#[derive(Debug, Clone)]
pub struct Config {
    pub username: String,
    pub password: String,
    /// The server's host name.
    pub host: String,
    /// The server's port.
    pub port: u32,
    /// The port we listen on for peers.
    pub listen_port: u32,
    /// The client's major version; each client has its own, and this one
    /// is 182.
    pub major_version: u32,
    pub minor_version: u32,
}

impl Default for Config {
    /// No user yet; the public server, port 2242; listening on 2234;
    /// version 182.1.
    fn default() -> (c: Self)
        ensures
            c.username@ == Seq::<char>::empty(),
            c.password@ == Seq::<char>::empty(),
            c.host@ == "server.slsknet.org"@,
            c.port == 2242,
            c.listen_port == 2234,
            c.major_version == 182,
            c.minor_version == 1,
    {
        Config {
            username: String::new(),
            password: String::new(),
            host: String::from_str("server.slsknet.org"),
            port: 2242,
            listen_port: 2234,
            major_version: 182,
            minor_version: 1,
        }
    }
}

} // verus!
