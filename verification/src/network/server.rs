//! The session with the server, as a state machine.
//!
//! The session opens a TCP connection, writes the login and the listening
//! port in one burst before reading anything, reads the answer, and after a
//! successful login writes the messages that set up the distributed network
//! and the share counts. It then handles messages and commands until the
//! connection breaks. A broken connection is opened again after a delay
//! that starts at a random 5 to 15 seconds and doubles up to 5 minutes; a
//! successful login resets it. A refused login, a disconnect command, the
//! end of the commands, or a login from elsewhere with our name end the
//! session for good.
//!
//! The I/O is the caller's: it performs each action the session returns and
//! reports what came of it as the next input.

use vstd::prelude::*;
use vstd::string::StringSliceAdditionalSpecFns;
use vstd::utf8::encode_utf8;
use crate::clock::{subsec_nanos_now, Delay};
use crate::command::Command;
use crate::config::Config;
use crate::digest::{hex_of, md5_hex_of_pair, spec_md5};
use crate::event::Event;
use crate::network::framing::{frame, write_frame};
use crate::protocol::server_msg::{
    decode_connect_to_peer, decode_server_message, encode_bool, encode_file_search, encode_login,
    encode_str, encode_u32, encode_u32_pair, login_payload, parse_connect_to_peer,
    parse_file_search, parse_login, LoginResponse, LoginView, ServerMessage, ACCEPT_CHILDREN,
    BRANCH_LEVEL, BRANCH_ROOT, CONNECT_TO_PEER, FILE_SEARCH, HAVE_NO_PARENT, LOGIN, RELOGGED,
    SET_WAIT_PORT, SHARED_FOLDERS_FILES,
};
use crate::protocol::wire::{bool_byte, le32, str_field};
use crate::protocol::ConnectionType;
use crate::text::{chars_of, decimal, push_decimal};

verus! {

/// The largest frame read from the server, in bytes (2 MiB).
pub const MAX_FRAME_SIZE: usize = 2 * 1024 * 1024;

/// Whether a frame of `len` bytes announced by the server is refused.
pub fn frame_too_large(len: usize) -> (r: bool)
    ensures
        r == (len > MAX_FRAME_SIZE),
{
    len > MAX_FRAME_SIZE
}

/// Where the session with the server stands.
#[derive(Debug, Clone, Copy, PartialEq, Eq, Structural)]
pub enum ServerConnState {
    Disconnected,
    /// The TCP connection is open; the login is not written yet.
    Connecting,
    /// The login is written; its answer is awaited.
    LoggingIn,
    /// Logged in.
    Connected,
}

impl Default for ServerConnState {
    fn default() -> (s: Self)
        ensures
            s == ServerConnState::Disconnected,
    {
        ServerConnState::Disconnected
    }
}

/// The next delay after one of `secs`: twice as long, at most 5 minutes.
pub open spec fn backoff(secs: u64) -> u64 {
    if 2 * secs < 300 {
        (2 * secs) as u64
    } else {
        300
    }
}

/// `min` plus `nanos` modulo the size of the range `min..=max`.
pub fn u32_in_range(min: u32, max: u32, nanos: u32) -> (r: u32)
    requires
        min <= max,
        max - min < u32::MAX,
    ensures
        r == min + (nanos as int) % ((max - min + 1) as int),
        min <= r <= max,
{
    min + nanos % (max - min + 1)
}

/// A number in `min..=max` taken from the sub-second nanoseconds of the
/// clock (`min` when the clock is set before the Unix epoch).
pub fn rand_u32_range(min: u32, max: u32) -> (r: u32)
    requires
        min <= max,
        max - min < u32::MAX,
    ensures
        min <= r <= max,
{
    match subsec_nanos_now() {
        Some(n) => u32_in_range(min, max, n),
        None => min,
    }
}

/// The delay before the next connection attempt, given the last one and the
/// jitter for a first attempt: the jitter when there was no delay yet, else
/// twice the last delay, at most 5 minutes.
pub fn next_reconnect_delay_with(current: Option<Delay>, jitter: u32) -> (d: Delay)
    requires
        current matches Some(c) ==> c.secs <= u64::MAX / 2,
    ensures
        d.secs == match current {
            None => jitter as u64,
            Some(c) => backoff(c.secs),
        },
{
    match current {
        None => Delay::from_secs(jitter as u64),
        Some(c) => {
            let doubled = c.secs * 2;
            if doubled < 300 {
                Delay::from_secs(doubled)
            } else {
                Delay::from_secs(300)
            }
        },
    }
}

/// Whether `d` is a delay that may follow `current`: 5 to 15 seconds when
/// there was none, else the backoff of the last.
pub open spec fn next_delay_ok(current: Option<Delay>, d: Delay) -> bool {
    match current {
        None => 5 <= d.secs <= 15,
        Some(c) => d.secs == backoff(c.secs),
    }
}

/// The delay before the next connection attempt: a random 5 to 15 seconds
/// for a first attempt, else twice the last delay, at most 5 minutes.
pub fn next_reconnect_delay(current: Option<Delay>) -> (d: Delay)
    requires
        current matches Some(c) ==> c.secs <= u64::MAX / 2,
    ensures
        next_delay_ok(current, d),
{
    let jitter = match current {
        None => rand_u32_range(5, 15),
        Some(_) => 0,
    };
    next_reconnect_delay_with(current, jitter)
}

/// The login hash: the lowercase hexadecimal MD5 digest of the user name
/// followed by the password.
pub fn login_hash(username: &str, password: &str) -> (r: String)
    ensures
        r@ == hex_of(spec_md5(username.spec_bytes() + password.spec_bytes())),
{
    md5_hex_of_pair(username, password)
}

/// The bytes written to log in: the login message, then the port we listen
/// on.
pub open spec fn login_burst(c: Config) -> Seq<u8> {
    frame(
        LOGIN,
        login_payload(
            encode_utf8(c.username@),
            encode_utf8(c.password@),
            c.major_version,
            encode_utf8(hex_of(spec_md5(encode_utf8(c.username@) + encode_utf8(c.password@)))),
            c.minor_version,
        ),
    ) + frame(SET_WAIT_PORT, le32(c.listen_port))
}

/// The bytes written once logged in: we have no parent in the distributed
/// network, we are the root of our branch at level 0, we accept no
/// children, and we share no folders and no files.
pub open spec fn setup_burst(c: Config) -> Seq<u8> {
    frame(HAVE_NO_PARENT, bool_byte(true)) + frame(BRANCH_ROOT, str_field(encode_utf8(c.username@)))
        + frame(BRANCH_LEVEL, le32(0)) + frame(ACCEPT_CHILDREN, bool_byte(false)) + frame(
        SHARED_FOLDERS_FILES,
        le32(0) + le32(0),
    )
}

/// The bytes that send a search for `query` under `token`.
pub open spec fn search_frame(token: u32, query: Seq<char>) -> Seq<u8> {
    frame(FILE_SEARCH, le32(token) + str_field(encode_utf8(query)))
}

/// Builds the login burst.
pub fn encode_login_burst(config: &Config) -> (r: Vec<u8>)
    ensures
        r@ == login_burst(*config),
{
    let hash = login_hash(config.username.as_str(), config.password.as_str());
    let login = encode_login(
        config.username.as_str(),
        config.password.as_str(),
        config.major_version,
        hash.as_str(),
        config.minor_version,
    );
    let mut out = write_frame(LOGIN, login.as_slice());
    let port = encode_u32(config.listen_port);
    let mut f2 = write_frame(SET_WAIT_PORT, port.as_slice());
    out.append(&mut f2);
    out
}

/// Builds the bytes written once logged in.
pub fn encode_setup_burst(config: &Config) -> (r: Vec<u8>)
    ensures
        r@ == setup_burst(*config),
{
    let p1 = encode_bool(true);
    let mut out = write_frame(HAVE_NO_PARENT, p1.as_slice());
    let p2 = encode_str(config.username.as_str());
    let mut f2 = write_frame(BRANCH_ROOT, p2.as_slice());
    out.append(&mut f2);
    let p3 = encode_u32(0);
    let mut f3 = write_frame(BRANCH_LEVEL, p3.as_slice());
    out.append(&mut f3);
    let p4 = encode_bool(false);
    let mut f4 = write_frame(ACCEPT_CHILDREN, p4.as_slice());
    out.append(&mut f4);
    let p5 = encode_u32_pair(0, 0);
    let mut f5 = write_frame(SHARED_FOLDERS_FILES, p5.as_slice());
    out.append(&mut f5);
    out
}

/// The connection type a connect-to-peer request names: `P`, `F` or `D`,
/// and a peer connection for anything else.
pub open spec fn requested_conn_type(s: Seq<char>) -> ConnectionType {
    if s == seq!['F'] {
        ConnectionType::FileTransfer
    } else if s == seq!['D'] {
        ConnectionType::Distributed
    } else {
        ConnectionType::PeerToPeer
    }
}

/// The only character of `s`, if it has exactly one.
pub fn single_char(s: &str) -> (r: Option<char>)
    ensures
        s@.len() == 1 ==> r == Some(s@[0]),
        s@.len() != 1 ==> r.is_none(),
{
    let v = chars_of(s);
    if v.len() == 1 {
        Some(v[0])
    } else {
        None
    }
}

/// Reads the connection type of a connect-to-peer request.
pub fn parse_requested_conn_type(s: &str) -> (t: ConnectionType)
    ensures
        t == requested_conn_type(s@),
{
    match single_char(s) {
        Some(c) => {
            if c == 'F' {
                assert(s@ =~= seq!['F']);
                ConnectionType::FileTransfer
            } else if c == 'D' {
                assert(s@ =~= seq!['D']);
                ConnectionType::Distributed
            } else {
                assert(s@ != seq!['F'] && s@ != seq!['D']) by {
                    if s@ == seq!['F'] || s@ == seq!['D'] {
                        assert(s@[0] == c);
                    }
                }
                ConnectionType::PeerToPeer
            }
        },
        None => {
            assert(s@ != seq!['F'] && s@ != seq!['D']) by {
                if s@ == seq!['F'] || s@ == seq!['D'] {
                    assert(s@.len() == 1);
                }
            }
            ConnectionType::PeerToPeer
        },
    }
}

/// What the caller reports to the session.
#[derive(Debug)]
pub enum SessionInput {
    /// Opening the TCP connection failed.
    ConnectFailed,
    /// The TCP connection is open.
    ConnectOpened,
    /// Writing the login burst failed, with this message.
    LoginWriteFailed(String),
    /// The login burst is written.
    LoginWritten,
    /// Reading the answer to the login failed, with this message.
    LoginReadFailed(String),
    /// The first message after the login.
    LoginAnswer { code: u32, payload: Vec<u8> },
    /// Writing the messages sent once logged in failed, with this message.
    SetupWriteFailed(String),
    /// The messages sent once logged in are written.
    SetupWritten,
    /// A message from the server.
    Message { code: u32, payload: Vec<u8> },
    /// Reading from the server failed, with this message.
    ReadFailed(String),
    /// A command from the front end.
    Command(Command),
    /// No more commands will come.
    CommandsClosed,
    /// A search request is written.
    SearchWritten { token: u32, query: String },
    /// Writing a search request failed.
    SearchWriteFailed,
}

/// What the caller does next.
#[derive(Debug)]
pub enum SessionAction {
    /// Open a TCP connection to the server.
    Connect,
    /// Wait this long, then open a TCP connection to the server.
    ReconnectAfter(Delay),
    /// Write these bytes (the login burst).
    WriteLogin(Vec<u8>),
    /// Read one message: the answer to the login.
    ReadLoginAnswer,
    /// Write these bytes (the messages sent once logged in), then start
    /// accepting peer connections.
    WriteSetup(Vec<u8>),
    /// Wait for the next message or command.
    Listen,
    /// Connect to a peer, then wait for the next message or command.
    ConnectToPeer { username: String, ip: u32, port: u32, token: u32, conn_type: ConnectionType },
    /// Write this search request, then report whether it was written.
    WriteSearch { frame: Vec<u8>, token: u32, query: String },
    /// End the session.
    Stop,
}

/// What one step of the session gives: events for the front end, and the
/// next action.
#[derive(Debug)]
pub struct Step {
    pub events: Vec<Event>,
    pub action: SessionAction,
}

/// The session with the server.
#[derive(Debug, Clone, Copy)]
pub struct ServerSession {
    pub state: ServerConnState,
    /// The last delay before a connection attempt, since the last
    /// successful login.
    pub reconnect_delay: Option<Delay>,
    /// Whether someone else logged in with our name.
    pub relogged: bool,
}

/// The delays the session uses stay at most 5 minutes.
pub open spec fn delay_bounded(d: Option<Delay>) -> bool {
    d matches Some(x) ==> x.secs <= 300
}

/// The delay can be doubled without overflow.
pub open spec fn delay_doubles_safely(d: Option<Delay>) -> bool {
    d matches Some(x) ==> x.secs <= u64::MAX / 2
}

/// Whether `e` is a disconnection with `reason`.
pub open spec fn is_disconnect(e: Event, reason: Seq<char>) -> bool {
    e matches Event::Disconnected { reason: Some(r) } && r@ == reason
}

/// The reason given when the answer to the login has the wrong code.
pub open spec fn wrong_code_reason(code: u32) -> Seq<char> {
    "io error: expected code 1, got "@ + decimal(code as nat)
}

/// The reason given when the answer to the login cannot be read.
pub open spec fn unreadable_login_reason() -> Seq<char> {
    "protocol error: message truncated"@
}

/// Whether the session lost its connection and waits before the next
/// attempt: no longer connected, a delay that may follow the last one,
/// which it waits, and the other fields as they were.
pub open spec fn reconnects(old: ServerSession, new: ServerSession, s: Step) -> bool {
    &&& new.state == ServerConnState::Disconnected
    &&& new.relogged == old.relogged
    &&& new.reconnect_delay matches Some(d)
    &&& next_delay_ok(old.reconnect_delay, d)
    &&& s.action == SessionAction::ReconnectAfter(d)
}

/// Whether the session goes on listening, unchanged.
pub open spec fn listens(old: ServerSession, new: ServerSession, s: Step) -> bool {
    new == old && s.action == SessionAction::Listen
}

impl ServerSession {
    /// A session not yet connected; the caller starts with `Connect`.
    pub fn new() -> (s: Self)
        ensures
            s.state == ServerConnState::Disconnected,
            s.reconnect_delay.is_none(),
            !s.relogged,
    {
        ServerSession {
            state: ServerConnState::Disconnected,
            reconnect_delay: None,
            relogged: false,
        }
    }

    /// The first action: open a TCP connection.
    pub fn start(&self) -> (a: SessionAction)
        ensures
            a == SessionAction::Connect,
    {
        SessionAction::Connect
    }

    fn lose_connection(&mut self, events: Vec<Event>) -> (s: Step)
        requires
            delay_doubles_safely(old(self).reconnect_delay),
        ensures
            reconnects(*old(self), *final(self), s),
            delay_bounded(final(self).reconnect_delay),
            s.events == events,
    {
        let d = next_reconnect_delay(self.reconnect_delay);
        self.reconnect_delay = Some(d);
        self.state = ServerConnState::Disconnected;
        Step { events, action: SessionAction::ReconnectAfter(d) }
    }

    /// Takes one input and gives the events it causes and the next action.
    #[verifier::rlimit(40)]
    pub fn step(&mut self, config: &Config, input: SessionInput) -> (s: Step)
        requires
            delay_doubles_safely(old(self).reconnect_delay),
        ensures
            delay_doubles_safely(final(self).reconnect_delay),
            delay_bounded(old(self).reconnect_delay) ==> delay_bounded(final(self).reconnect_delay),
            match input {
                SessionInput::ConnectFailed => reconnects(*old(self), *final(self), s)
                    && s.events@.len() == 0,
                SessionInput::ConnectOpened => {
                    &&& *final(self) == ServerSession {
                        state: ServerConnState::Connecting,
                        ..*old(self)
                    }
                    &&& s.events@.len() == 0
                    &&& s.action matches SessionAction::WriteLogin(b) && b@ == login_burst(*config)
                },
                SessionInput::LoginWriteFailed(e) => reconnects(*old(self), *final(self), s)
                    && s.events@.len() == 1 && is_disconnect(s.events@[0], e@),
                SessionInput::LoginWritten => {
                    &&& *final(self) == ServerSession {
                        state: ServerConnState::LoggingIn,
                        ..*old(self)
                    }
                    &&& s.events@.len() == 0
                    &&& s.action == SessionAction::ReadLoginAnswer
                },
                SessionInput::LoginReadFailed(e) => reconnects(*old(self), *final(self), s)
                    && s.events@.len() == 1 && is_disconnect(s.events@[0], e@),
                SessionInput::LoginAnswer { code, payload } => if code != LOGIN {
                    reconnects(*old(self), *final(self), s) && s.events@.len() == 1
                        && is_disconnect(s.events@[0], wrong_code_reason(code))
                } else {
                    match parse_login(payload@) {
                        None => reconnects(*old(self), *final(self), s) && s.events@.len() == 1
                            && is_disconnect(s.events@[0], unreadable_login_reason()),
                        Some(LoginView::Success { greet, .. }) => {
                            &&& *final(self) == ServerSession {
                                state: ServerConnState::Connected,
                                reconnect_delay: None,
                                relogged: false,
                            }
                            &&& s.events@.len() == 1
                            &&& s.events@[0] matches Event::Connected { motd } && motd@ == greet
                            &&& s.action matches SessionAction::WriteSetup(b) && b@ == setup_burst(
                                *config,
                            )
                        },
                        Some(LoginView::Failure { reason, .. }) => {
                            &&& *final(self) == ServerSession {
                                state: ServerConnState::Disconnected,
                                ..*old(self)
                            }
                            &&& s.events@.len() == 1
                            &&& s.events@[0] matches Event::LoginFailed { reason: r } && r@
                                == reason
                            &&& s.action == SessionAction::Stop
                        },
                    }
                },
                SessionInput::SetupWriteFailed(e) => listens(*old(self), *final(self), s)
                    && s.events@.len() == 1 && is_disconnect(s.events@[0], e@),
                SessionInput::SetupWritten => listens(*old(self), *final(self), s)
                    && s.events@.len() == 0,
                SessionInput::Message { code, payload } => if code == RELOGGED {
                    &&& *final(self) == ServerSession {
                        state: ServerConnState::Disconnected,
                        relogged: true,
                        ..*old(self)
                    }
                    &&& s.events@.len() == 1
                    &&& is_disconnect(s.events@[0], "Relogged"@)
                    &&& s.action == SessionAction::Stop
                } else if code == CONNECT_TO_PEER {
                    &&& *final(self) == *old(self)
                    &&& s.events@.len() == 0
                    &&& match parse_connect_to_peer(payload@) {
                        Some((user, kind, ip, port, token)) => s.action matches
                            SessionAction::ConnectToPeer {
                                username,
                                ip: a_ip,
                                port: a_port,
                                token: a_token,
                                conn_type,
                            } && username@ == user && a_ip == ip && a_port == port && a_token
                            == token && conn_type == requested_conn_type(kind),
                        None => s.action == SessionAction::Listen,
                    }
                } else if code == FILE_SEARCH {
                    &&& listens(*old(self), *final(self), s)
                    &&& match parse_file_search(payload@) {
                        Some((user, token, _)) => {
                            &&& s.events@.len() == 1
                            &&& s.events@[0] matches Event::SearchResult {
                                token: t,
                                username,
                                filename,
                                size,
                            }
                            &&& t == token
                            &&& username@ == user
                            &&& filename@.len() == 0
                            &&& size == 0
                        },
                        None => s.events@.len() == 0,
                    }
                } else {
                    listens(*old(self), *final(self), s) && s.events@.len() == 0
                },
                SessionInput::ReadFailed(e) => reconnects(*old(self), *final(self), s)
                    && s.events@.len() == 1 && is_disconnect(s.events@[0], e@),
                SessionInput::Command(cmd) => {
                    &&& *final(self) == *old(self)
                    &&& s.events@.len() == 0
                    &&& match cmd {
                        Command::Disconnect => s.action == SessionAction::Stop,
                        Command::Search { query, token } => s.action matches
                            SessionAction::WriteSearch { frame, token: t, query: q } && frame@
                            == search_frame(token, query@) && t == token && q@ == query@,
                        _ => s.action == SessionAction::Listen,
                    }
                },
                SessionInput::CommandsClosed => *final(self) == *old(self) && s.events@.len() == 0
                    && s.action == SessionAction::Stop,
                SessionInput::SearchWritten { token, query } => {
                    &&& listens(*old(self), *final(self), s)
                    &&& s.events@.len() == 1
                    &&& s.events@[0] matches Event::SearchStarted { token: t, query: q } && t
                        == token && q@ == query@
                },
                SessionInput::SearchWriteFailed => listens(*old(self), *final(self), s)
                    && s.events@.len() == 0,
            },
    {
        match input {
            SessionInput::ConnectFailed => self.lose_connection(Vec::new()),
            SessionInput::ConnectOpened => {
                self.state = ServerConnState::Connecting;
                Step { events: Vec::new(), action: SessionAction::WriteLogin(encode_login_burst(config)) }
            },
            SessionInput::LoginWriteFailed(e) => {
                let mut events = Vec::new();
                events.push(Event::Disconnected { reason: Some(e) });
                self.lose_connection(events)
            },
            SessionInput::LoginWritten => {
                self.state = ServerConnState::LoggingIn;
                Step { events: Vec::new(), action: SessionAction::ReadLoginAnswer }
            },
            SessionInput::LoginReadFailed(e) => {
                let mut events = Vec::new();
                events.push(Event::Disconnected { reason: Some(e) });
                self.lose_connection(events)
            },
            SessionInput::LoginAnswer { code, payload } => {
                if code != LOGIN {
                    let mut reason = String::from_str("io error: expected code 1, got ");
                    push_decimal(&mut reason, code as u64);
                    let mut events = Vec::new();
                    events.push(Event::Disconnected { reason: Some(reason) });
                    return self.lose_connection(events);
                }
                match crate::protocol::server_msg::decode_login(payload.as_slice()) {
                    Err(_) => {
                        let reason = String::from_str("protocol error: message truncated");
                        let mut events = Vec::new();
                        events.push(Event::Disconnected { reason: Some(reason) });
                        self.lose_connection(events)
                    },
                    Ok(LoginResponse::Success { greet, .. }) => {
                        self.state = ServerConnState::Connected;
                        self.reconnect_delay = None;
                        self.relogged = false;
                        let mut events = Vec::new();
                        events.push(Event::Connected { motd: greet });
                        Step {
                            events,
                            action: SessionAction::WriteSetup(encode_setup_burst(config)),
                        }
                    },
                    Ok(LoginResponse::Failure { reason, .. }) => {
                        self.state = ServerConnState::Disconnected;
                        let mut events = Vec::new();
                        events.push(Event::LoginFailed { reason });
                        Step { events, action: SessionAction::Stop }
                    },
                }
            },
            SessionInput::SetupWriteFailed(e) => {
                let mut events = Vec::new();
                events.push(Event::Disconnected { reason: Some(e) });
                Step { events, action: SessionAction::Listen }
            },
            SessionInput::SetupWritten => Step { events: Vec::new(), action: SessionAction::Listen },
            SessionInput::Message { code, payload } => {
                if code == RELOGGED {
                    self.relogged = true;
                    self.state = ServerConnState::Disconnected;
                    let mut events = Vec::new();
                    events.push(Event::Disconnected { reason: Some(String::from_str("Relogged")) });
                    return Step { events, action: SessionAction::Stop };
                }
                if code == CONNECT_TO_PEER {
                    return match decode_connect_to_peer(payload.as_slice()) {
                        Ok(req) => {
                            let conn_type = parse_requested_conn_type(req.conn_type.as_str());
                            Step {
                                events: Vec::new(),
                                action: SessionAction::ConnectToPeer {
                                    username: req.username,
                                    ip: req.ip,
                                    port: req.port,
                                    token: req.token,
                                    conn_type,
                                },
                            }
                        },
                        Err(_) => Step { events: Vec::new(), action: SessionAction::Listen },
                    };
                }
                let mut events = Vec::new();
                match decode_server_message(code, payload.as_slice()) {
                    Ok(ServerMessage::FileSearch(f)) => {
                        events.push(
                            Event::SearchResult {
                                token: f.token,
                                username: f.username,
                                filename: String::new(),
                                size: 0,
                            },
                        );
                    },
                    _ => {},
                }
                Step { events, action: SessionAction::Listen }
            },
            SessionInput::ReadFailed(e) => {
                let mut events = Vec::new();
                events.push(Event::Disconnected { reason: Some(e) });
                self.lose_connection(events)
            },
            SessionInput::Command(cmd) => {
                let action = match cmd {
                    Command::Disconnect => SessionAction::Stop,
                    Command::Search { query, token } => {
                        let payload = encode_file_search(token, query.as_str());
                        let frame = write_frame(FILE_SEARCH, payload.as_slice());
                        SessionAction::WriteSearch { frame, token, query }
                    },
                    _ => SessionAction::Listen,
                };
                Step { events: Vec::new(), action }
            },
            SessionInput::CommandsClosed => Step { events: Vec::new(), action: SessionAction::Stop },
            SessionInput::SearchWritten { token, query } => {
                let mut events = Vec::new();
                events.push(Event::SearchStarted { token, query });
                Step { events, action: SessionAction::Listen }
            },
            SessionInput::SearchWriteFailed => Step {
                events: Vec::new(),
                action: SessionAction::Listen,
            },
        }
    }
}

/// The delay before reconnecting never exceeds 5 minutes, never shrinks
/// below it, and stays at 5 minutes once there; from a first delay of 5
/// seconds or more, six failures in a row reach it.
pub proof fn law_backoff(secs: u64)
    ensures
        backoff(secs) <= 300,
        secs <= 300 ==> backoff(secs) >= secs,
        backoff(300) == 300,
        5 <= secs ==> backoff(backoff(backoff(backoff(backoff(backoff(secs)))))) == 300,
{
}

/// The connection type a connect-to-peer request names is the one whose
/// letter it carries: `F`, `D` and `P` each read back as their own type, so
/// no two of the three letters open the same kind of connection. Anything
/// that is none of the three letters opens a peer connection.
pub proof fn law_requested_type_by_letter(t: ConnectionType, u: ConnectionType, other: Seq<char>)
    ensures
        other != seq!['F'] && other != seq!['D'] && other != seq!['P'] ==> requested_conn_type(other)
            == ConnectionType::PeerToPeer,
        requested_conn_type(crate::network::peer::conn_letter(t)) == t,
        requested_conn_type(crate::network::peer::conn_letter(t)) == requested_conn_type(
            crate::network::peer::conn_letter(u),
        ) ==> t == u,
{
    assert(seq!['F'] != seq!['D']) by {
        assert(seq!['F'][0] != seq!['D'][0]);
    }
    assert(seq!['P'] != seq!['D']) by {
        assert(seq!['P'][0] != seq!['D'][0]);
    }
    assert(seq!['P'] != seq!['F']) by {
        assert(seq!['P'][0] != seq!['F'][0]);
    }
}

} // verus!
