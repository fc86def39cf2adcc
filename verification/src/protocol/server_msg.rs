//! Messages between the client and the server: the payloads the client
//! sends, and the decoding of those it acts on.

use vstd::prelude::*;
use vstd::string::StringSliceAdditionalSpecFns;
use crate::protocol::wire::{
    bool_byte, get_str, get_u32, get_u8, le32, parse_str, parse_u32, parse_u8, put_bool, put_str,
    put_u32, str_field,
};
use crate::protocol::ProtoError;

verus! {

/// Log in (both directions).
pub const LOGIN: u32 = 1;
/// Tell the server the port we listen on.
pub const SET_WAIT_PORT: u32 = 2;
/// The server asks us to connect to a peer.
pub const CONNECT_TO_PEER: u32 = 18;
/// A search over the whole network (both directions).
pub const FILE_SEARCH: u32 = 26;
/// A keep-alive from the server.
pub const SERVER_PING: u32 = 32;
/// How many folders and files we share.
pub const SHARED_FOLDERS_FILES: u32 = 35;
/// Someone else logged in with our name.
pub const RELOGGED: u32 = 41;
/// A search of one user's files.
pub const USER_SEARCH: u32 = 42;
/// We have no parent in the distributed network.
pub const HAVE_NO_PARENT: u32 = 71;
/// Whether we accept children in the distributed network.
pub const ACCEPT_CHILDREN: u32 = 100;
/// A wishlist search.
pub const WISHLIST_SEARCH: u32 = 103;
/// A search of one room's users.
pub const ROOM_SEARCH: u32 = 120;
/// Our level in the distributed network.
pub const BRANCH_LEVEL: u32 = 126;
/// The root of our branch of the distributed network.
pub const BRANCH_ROOT: u32 = 127;

/// The payload of a login request: user name, password, major version,
/// the hash of name and password, minor version.
pub open spec fn login_payload(
    username: Seq<u8>,
    password: Seq<u8>,
    major: u32,
    hash: Seq<u8>,
    minor: u32,
) -> Seq<u8> {
    str_field(username) + str_field(password) + le32(major) + str_field(hash) + le32(minor)
}

/// Builds the payload of a login request.
pub fn encode_login(
    username: &str,
    password: &str,
    major_version: u32,
    hash: &str,
    minor_version: u32,
) -> (r: Vec<u8>)
    ensures
        r@ == login_payload(
            username.spec_bytes(),
            password.spec_bytes(),
            major_version,
            hash.spec_bytes(),
            minor_version,
        ),
{
    let mut out: Vec<u8> = Vec::new();
    put_str(&mut out, username);
    put_str(&mut out, password);
    put_u32(&mut out, major_version);
    put_str(&mut out, hash);
    put_u32(&mut out, minor_version);
    assert(out@ =~= login_payload(
        username.spec_bytes(),
        password.spec_bytes(),
        major_version,
        hash.spec_bytes(),
        minor_version,
    ));
    out
}

/// A payload of one 32-bit integer.
pub fn encode_u32(x: u32) -> (r: Vec<u8>)
    ensures
        r@ == le32(x),
{
    let mut out: Vec<u8> = Vec::new();
    put_u32(&mut out, x);
    assert(out@ =~= le32(x));
    out
}

/// A payload of two 32-bit integers.
pub fn encode_u32_pair(x: u32, y: u32) -> (r: Vec<u8>)
    ensures
        r@ == le32(x) + le32(y),
{
    let mut out: Vec<u8> = Vec::new();
    put_u32(&mut out, x);
    put_u32(&mut out, y);
    assert(out@ =~= le32(x) + le32(y));
    out
}

/// A payload of one boolean.
pub fn encode_bool(v: bool) -> (r: Vec<u8>)
    ensures
        r@ == bool_byte(v),
{
    let mut out: Vec<u8> = Vec::new();
    put_bool(&mut out, v);
    assert(out@ =~= bool_byte(v));
    out
}

/// A payload of one string.
pub fn encode_str(s: &str) -> (r: Vec<u8>)
    ensures
        r@ == str_field(s.spec_bytes()),
{
    let mut out: Vec<u8> = Vec::new();
    put_str(&mut out, s);
    assert(out@ =~= str_field(s.spec_bytes()));
    out
}

/// The payload of a search request: its token, then the query.
pub fn encode_file_search(token: u32, query: &str) -> (r: Vec<u8>)
    ensures
        r@ == le32(token) + str_field(query.spec_bytes()),
{
    let mut out: Vec<u8> = Vec::new();
    put_u32(&mut out, token);
    put_str(&mut out, query);
    assert(out@ =~= le32(token) + str_field(query.spec_bytes()));
    out
}

/// The server's answer to a login.
#[derive(Debug, Clone, PartialEq)]
pub enum LoginResponse {
    Success { greet: String, own_ip: u32, hash: String, is_supporter: bool },
    Failure { reason: String, detail: Option<String> },
}

/// The server's answer to a login, as a value of the specification.
pub enum LoginView {
    Success { greet: Seq<char>, own_ip: u32, hash: Seq<char>, is_supporter: bool },
    Failure { reason: Seq<char>, detail: Option<Seq<char>> },
}

impl View for LoginResponse {
    type V = LoginView;

    open spec fn view(&self) -> LoginView {
        match self {
            LoginResponse::Success { greet, own_ip, hash, is_supporter } => LoginView::Success {
                greet: greet@,
                own_ip: *own_ip,
                hash: hash@,
                is_supporter: *is_supporter,
            },
            LoginResponse::Failure { reason, detail } => LoginView::Failure {
                reason: reason@,
                detail: match detail {
                    Some(d) => Some(d@),
                    None => None,
                },
            },
        }
    }
}

/// A login answer read from `b`: a success byte; on success the greeting,
/// our address, a hash and, when present, whether we are a supporter; on
/// failure the reason and, when present, a detail.
pub open spec fn parse_login(b: Seq<u8>) -> Option<LoginView> {
    match parse_u8(b, 0) {
        Some((ok, i)) => if ok != 0 {
            match parse_str(b, i) {
                Some((greet, j)) => match parse_u32(b, j) {
                    Some((ip, k)) => match parse_str(b, k) {
                        Some((hash, l)) => Some(
                            LoginView::Success {
                                greet,
                                own_ip: ip,
                                hash,
                                is_supporter: match parse_u8(b, l) {
                                    Some((s, _)) => s != 0,
                                    None => false,
                                },
                            },
                        ),
                        None => None,
                    },
                    None => None,
                },
                None => None,
            }
        } else {
            match parse_str(b, i) {
                Some((reason, j)) => Some(
                    LoginView::Failure {
                        reason,
                        detail: match parse_str(b, j) {
                            Some((d, _)) => Some(d),
                            None => None,
                        },
                    },
                ),
                None => None,
            }
        },
        None => None,
    }
}

/// Reads the server's answer to a login.
pub fn decode_login(b: &[u8]) -> (r: Result<LoginResponse, ProtoError>)
    ensures
        match r {
            Ok(m) => parse_login(b@) == Some(m@),
            Err(e) => parse_login(b@).is_none() && e == ProtoError::Truncated,
        },
{
    let (ok, i) = match get_u8(b, 0) {
        Some(x) => x,
        None => {
            return Err(ProtoError::Truncated);
        },
    };
    if ok != 0 {
        let (greet, j) = match get_str(b, i) {
            Some(x) => x,
            None => {
                return Err(ProtoError::Truncated);
            },
        };
        let (own_ip, k) = match get_u32(b, j) {
            Some(x) => x,
            None => {
                return Err(ProtoError::Truncated);
            },
        };
        let (hash, l) = match get_str(b, k) {
            Some(x) => x,
            None => {
                return Err(ProtoError::Truncated);
            },
        };
        let is_supporter = match get_u8(b, l) {
            Some((s, _)) => s != 0,
            None => false,
        };
        Ok(LoginResponse::Success { greet, own_ip, hash, is_supporter })
    } else {
        let (reason, j) = match get_str(b, i) {
            Some(x) => x,
            None => {
                return Err(ProtoError::Truncated);
            },
        };
        let detail = match get_str(b, j) {
            Some((d, _)) => Some(d),
            None => None,
        };
        Ok(LoginResponse::Failure { reason, detail })
    }
}

/// The server asks us to connect to a peer.
#[derive(Debug, Clone, PartialEq)]
pub struct ConnectToPeer {
    pub username: String,
    /// `P`, `F` or `D`.
    pub conn_type: String,
    pub ip: u32,
    pub port: u32,
    pub token: u32,
}

/// A connect-to-peer request read from `b`: user name, connection type,
/// address, port and token (what follows is not read).
pub open spec fn parse_connect_to_peer(b: Seq<u8>) -> Option<
    (Seq<char>, Seq<char>, u32, u32, u32),
> {
    match parse_str(b, 0) {
        Some((user, i)) => match parse_str(b, i) {
            Some((kind, j)) => match parse_u32(b, j) {
                Some((ip, k)) => match parse_u32(b, k) {
                    Some((port, l)) => match parse_u32(b, l) {
                        Some((token, _)) => Some((user, kind, ip, port, token)),
                        None => None,
                    },
                    None => None,
                },
                None => None,
            },
            None => None,
        },
        None => None,
    }
}

/// Reads a connect-to-peer request.
pub fn decode_connect_to_peer(b: &[u8]) -> (r: Result<ConnectToPeer, ProtoError>)
    ensures
        match r {
            Ok(m) => parse_connect_to_peer(b@) == Some(
                (m.username@, m.conn_type@, m.ip, m.port, m.token),
            ),
            Err(e) => parse_connect_to_peer(b@).is_none() && e == ProtoError::Truncated,
        },
{
    let (username, i) = match get_str(b, 0) {
        Some(x) => x,
        None => {
            return Err(ProtoError::Truncated);
        },
    };
    let (conn_type, j) = match get_str(b, i) {
        Some(x) => x,
        None => {
            return Err(ProtoError::Truncated);
        },
    };
    let (ip, k) = match get_u32(b, j) {
        Some(x) => x,
        None => {
            return Err(ProtoError::Truncated);
        },
    };
    let (port, l) = match get_u32(b, k) {
        Some(x) => x,
        None => {
            return Err(ProtoError::Truncated);
        },
    };
    let (token, _) = match get_u32(b, l) {
        Some(x) => x,
        None => {
            return Err(ProtoError::Truncated);
        },
    };
    Ok(ConnectToPeer { username, conn_type, ip, port, token })
}

/// A search another user made, relayed by the server.
#[derive(Debug, Clone, PartialEq)]
pub struct FileSearch {
    pub username: String,
    pub token: u32,
    pub query: String,
}

/// A relayed search read from `b`: user name, token, query.
pub open spec fn parse_file_search(b: Seq<u8>) -> Option<(Seq<char>, u32, Seq<char>)> {
    match parse_str(b, 0) {
        Some((user, i)) => match parse_u32(b, i) {
            Some((token, j)) => match parse_str(b, j) {
                Some((query, _)) => Some((user, token, query)),
                None => None,
            },
            None => None,
        },
        None => None,
    }
}

/// Reads a relayed search.
pub fn decode_file_search(b: &[u8]) -> (r: Result<FileSearch, ProtoError>)
    ensures
        match r {
            Ok(m) => parse_file_search(b@) == Some((m.username@, m.token, m.query@)),
            Err(e) => parse_file_search(b@).is_none() && e == ProtoError::Truncated,
        },
{
    let (username, i) = match get_str(b, 0) {
        Some(x) => x,
        None => {
            return Err(ProtoError::Truncated);
        },
    };
    let (token, j) = match get_u32(b, i) {
        Some(x) => x,
        None => {
            return Err(ProtoError::Truncated);
        },
    };
    let (query, _) = match get_str(b, j) {
        Some(x) => x,
        None => {
            return Err(ProtoError::Truncated);
        },
    };
    Ok(FileSearch { username, token, query })
}

/// A message from the server, as far as the client reads it.
#[derive(Debug, Clone, PartialEq)]
pub enum ServerMessage {
    Login(LoginResponse),
    Relogged,
    ServerPing,
    FileSearch(FileSearch),
    ConnectToPeer(ConnectToPeer),
    /// A message the client does not read.
    Other(u32),
}

/// Whether `m` is what the server message with `code` and payload `b` reads
/// as; `None` when the payload is too short.
pub open spec fn decodes_as(code: u32, b: Seq<u8>, m: ServerMessage) -> bool {
    if code == LOGIN {
        m matches ServerMessage::Login(l) && parse_login(b) == Some(l@)
    } else if code == RELOGGED {
        m == ServerMessage::Relogged
    } else if code == SERVER_PING {
        m == ServerMessage::ServerPing
    } else if code == FILE_SEARCH {
        m matches ServerMessage::FileSearch(f) && parse_file_search(b) == Some(
            (f.username@, f.token, f.query@),
        )
    } else if code == CONNECT_TO_PEER {
        m matches ServerMessage::ConnectToPeer(c) && parse_connect_to_peer(b) == Some(
            (c.username@, c.conn_type@, c.ip, c.port, c.token),
        )
    } else {
        m == ServerMessage::Other(code)
    }
}

/// Whether the server message with `code` and payload `b` can be read.
pub open spec fn decodable(code: u32, b: Seq<u8>) -> bool {
    if code == LOGIN {
        parse_login(b).is_some()
    } else if code == FILE_SEARCH {
        parse_file_search(b).is_some()
    } else if code == CONNECT_TO_PEER {
        parse_connect_to_peer(b).is_some()
    } else {
        true
    }
}

/// Reads a server message by its code.
pub fn decode_server_message(code: u32, payload: &[u8]) -> (r: Result<ServerMessage, ProtoError>)
    ensures
        match r {
            Ok(m) => decodable(code, payload@) && decodes_as(code, payload@, m),
            Err(e) => !decodable(code, payload@) && e == ProtoError::Truncated,
        },
{
    if code == LOGIN {
        match decode_login(payload) {
            Ok(l) => Ok(ServerMessage::Login(l)),
            Err(e) => Err(e),
        }
    } else if code == RELOGGED {
        Ok(ServerMessage::Relogged)
    } else if code == SERVER_PING {
        Ok(ServerMessage::ServerPing)
    } else if code == FILE_SEARCH {
        match decode_file_search(payload) {
            Ok(f) => Ok(ServerMessage::FileSearch(f)),
            Err(e) => Err(e),
        }
    } else if code == CONNECT_TO_PEER {
        match decode_connect_to_peer(payload) {
            Ok(c) => Ok(ServerMessage::ConnectToPeer(c)),
            Err(e) => Err(e),
        }
    } else {
        Ok(ServerMessage::Other(code))
    }
}

} // verus!
