//! Peer connections: the first message on a connection, the frames of
//! peer messages, and what the client does with the messages it reads.
//!
//! Search results arrive from peers: after we send a search, peers with
//! matching files connect to us and send compressed search responses.

use vstd::prelude::*;
use vstd::string::StringSliceAdditionalSpecFns;
use vstd::utf8::encode_utf8;
use std::io::Read;
use flate2::read::ZlibDecoder;
use crate::event::Event;
use crate::network::framing::frame;
use crate::protocol::peer_msg::{
    decode_peer_init, decode_pierce_firewall, decode_queue_upload, decode_search_response,
    decode_transfer_request, encode_peer_init, parse_peer_init, parse_search_response,
    parse_transfer_request, peer_init_payload, FILE_SEARCH_RESPONSE, PEER_INIT, PIERCE_FIREWALL,
    QUEUE_UPLOAD, TRANSFER_REQUEST,
};
use crate::protocol::wire::{le32, parse_str, parse_u32, put_bytes, put_u32, put_u8, u32_at};
use crate::protocol::{ConnectionType, ProtoError};

verus! {

/// The largest peer frame read, in bytes (2 MiB).
pub const MAX_PEER_FRAME_SIZE: usize = 2 * 1024 * 1024;

/// The largest decompressed search response, in bytes (128 MiB).
pub const MAX_UNCOMPRESSED: usize = 128 * 1024 * 1024;

/// The version sent in our peer-init messages.
pub const PEER_INIT_VERSION: u32 = 182;

/// Whether a peer frame of `len` bytes is refused.
pub fn peer_frame_too_large(len: usize) -> (r: bool)
    ensures
        r == (len > MAX_PEER_FRAME_SIZE),
{
    len > MAX_PEER_FRAME_SIZE
}

/// The frame of a peer-init message: a 32-bit length counting what
/// follows, a one-byte code, then the payload.
pub open spec fn init_frame(code: u8, payload: Seq<u8>) -> Seq<u8> {
    le32((1 + payload.len()) as u32) + seq![code] + payload
}

/// Frames a peer-init message.
pub fn encode_peer_init_frame(code: u8, payload: &[u8]) -> (r: Vec<u8>)
    ensures
        r@ == init_frame(code, payload@),
{
    let total: u128 = payload.len() as u128 + 1;
    let mut out: Vec<u8> = Vec::new();
    put_u32(&mut out, total as u32);
    put_u8(&mut out, code);
    put_bytes(&mut out, payload);
    assert(out@ =~= init_frame(code, payload@));
    out
}

/// Frames a peer message: a 32-bit length counting what follows, the
/// 32-bit code, then the payload.
pub fn encode_peer_frame(code: u32, payload: &[u8]) -> (r: Vec<u8>)
    ensures
        r@ == frame(code, payload@),
{
    crate::network::framing::write_frame(code, payload)
}

/// Splits the body of a peer-init frame (what follows its length) into its
/// code and payload.
pub fn split_init_body(body: &[u8]) -> (r: (u8, Vec<u8>))
    requires
        body@.len() >= 1,
    ensures
        r.0 == body@[0],
        r.1@ == body@.skip(1),
{
    let payload = crate::protocol::wire::copy_range(body, 1, body.len());
    assert(payload@ =~= body@.skip(1));
    (body[0], payload)
}

/// Splits the body of a frame (what follows its length) into its 32-bit
/// code and payload.
pub fn split_body(body: &[u8]) -> (r: (u32, Vec<u8>))
    requires
        body@.len() >= 4,
    ensures
        r.0 == u32_at(body@, 0),
        r.1@ == body@.skip(4),
{
    let code = (body[0] as u32) + (body[1] as u32) * 256 + (body[2] as u32) * 65536 + (body[3]
        as u32) * 16777216;
    let payload = crate::protocol::wire::copy_range(body, 4, body.len());
    assert(payload@ =~= body@.skip(4));
    (code, payload)
}

/// The little-endian 32-bit integer of a length prefix.
pub fn length_of_prefix(prefix: [u8; 4]) -> (r: u32)
    ensures
        r == u32_at(prefix@, 0),
{
    (prefix[0] as u32) + (prefix[1] as u32) * 256 + (prefix[2] as u32) * 65536 + (prefix[3] as u32)
        * 16777216
}

/// The letter of a connection type.
pub open spec fn conn_letter(t: ConnectionType) -> Seq<char> {
    match t {
        ConnectionType::PeerToPeer => seq!['P'],
        ConnectionType::FileTransfer => seq!['F'],
        ConnectionType::Distributed => seq!['D'],
    }
}

/// The letter of a connection type: `P`, `F` or `D`.
pub fn conn_type_letter(t: ConnectionType) -> (r: String)
    ensures
        r@ == conn_letter(t),
{
    let mut r = String::new();
    match t {
        ConnectionType::PeerToPeer => r.push('P'),
        ConnectionType::FileTransfer => r.push('F'),
        ConnectionType::Distributed => r.push('D'),
    }
    assert(r@ =~= conn_letter(t));
    r
}

/// The peer-init frame we send when we open a connection to a peer.
pub open spec fn our_init_frame(our_username: Seq<char>, t: ConnectionType) -> Seq<u8> {
    init_frame(
        PEER_INIT,
        peer_init_payload(encode_utf8(our_username), encode_utf8(conn_letter(t)), PEER_INIT_VERSION),
    )
}

/// Builds the peer-init frame we send when we open a connection to a peer.
pub fn encode_our_init(our_username: &str, t: ConnectionType) -> (r: Vec<u8>)
    ensures
        r@ == our_init_frame(our_username@, t),
{
    let letter = conn_type_letter(t);
    let payload = encode_peer_init(our_username, letter.as_str(), PEER_INIT_VERSION);
    encode_peer_init_frame(PEER_INIT, payload.as_slice())
}

/// The connection type a peer that connected to us names: `P`, `F`, and
/// distributed for anything else.
pub open spec fn incoming_conn_type(s: Seq<char>) -> ConnectionType {
    if s == seq!['P'] {
        ConnectionType::PeerToPeer
    } else if s == seq!['F'] {
        ConnectionType::FileTransfer
    } else {
        ConnectionType::Distributed
    }
}

/// Reads the connection type a peer that connected to us names.
pub fn parse_incoming_conn_type(s: &str) -> (t: ConnectionType)
    ensures
        t == incoming_conn_type(s@),
{
    match crate::network::server::single_char(s) {
        Some(c) => {
            if c == 'P' {
                assert(s@ =~= seq!['P']);
                ConnectionType::PeerToPeer
            } else if c == 'F' {
                assert(s@ =~= seq!['F']);
                ConnectionType::FileTransfer
            } else {
                assert(s@ != seq!['P'] && s@ != seq!['F']) by {
                    if s@ == seq!['P'] || s@ == seq!['F'] {
                        assert(s@[0] == c);
                    }
                }
                ConnectionType::Distributed
            }
        },
        None => {
            assert(s@ != seq!['P'] && s@ != seq!['F']) by {
                if s@ == seq!['P'] || s@ == seq!['F'] {
                    assert(s@.len() == 1);
                }
            }
            ConnectionType::Distributed
        },
    }
}

/// The first message of a peer that connected to us.
#[derive(Debug, Clone, PartialEq)]
pub enum IncomingInit {
    /// The peer answers a request relayed by the server.
    PierceFirewall { token: u32 },
    /// The peer connects directly.
    PeerInit { username: String, conn_type: ConnectionType },
    /// The message could not be read.
    Malformed(ProtoError),
    /// A code that is neither of the two.
    UnknownCode(u8),
}

/// Reads the first message of a peer that connected to us.
pub fn read_incoming_init(code: u8, payload: &[u8]) -> (r: IncomingInit)
    ensures
        code == PIERCE_FIREWALL ==> match parse_u32(payload@, 0) {
            Some((t, _)) => r == IncomingInit::PierceFirewall { token: t },
            None => r == IncomingInit::Malformed(ProtoError::Truncated),
        },
        code == PEER_INIT ==> match parse_peer_init(payload@) {
            Some((user, kind, _)) => r matches IncomingInit::PeerInit { username, conn_type }
                && username@ == user && conn_type == incoming_conn_type(kind),
            None => r == IncomingInit::Malformed(ProtoError::Truncated),
        },
        code != PIERCE_FIREWALL && code != PEER_INIT ==> r == IncomingInit::UnknownCode(code),
{
    if code == PIERCE_FIREWALL {
        match decode_pierce_firewall(payload) {
            Ok(token) => IncomingInit::PierceFirewall { token },
            Err(e) => IncomingInit::Malformed(e),
        }
    } else if code == PEER_INIT {
        match decode_peer_init(payload) {
            Ok(init) => {
                let conn_type = parse_incoming_conn_type(init.conn_type.as_str());
                IncomingInit::PeerInit { username: init.username, conn_type }
            },
            Err(e) => IncomingInit::Malformed(e),
        }
    } else {
        IncomingInit::UnknownCode(code)
    }
}

/// The four bytes of an IPv4 address as the server sends it, first byte
/// first: the integer's little-endian bytes.
pub fn peer_ipv4_octets(ip: u32) -> (r: [u8; 4])
    ensures
        r@ == le32(ip),
{
    let r = [
        (ip % 256) as u8,
        ((ip / 256) % 256) as u8,
        ((ip / 65536) % 256) as u8,
        ((ip / 16777216) % 256) as u8,
    ];
    assert(r@ =~= le32(ip));
    r
}

/// Why a compressed payload could not be unpacked.
#[derive(Debug, Clone, PartialEq)]
pub enum DecompressError {
    /// More than this many bytes came out.
    TooLarge { limit: usize },
    /// The zlib stream is broken; the decoder's message.
    Inflate(String),
}

/// What the zlib stream in `input` decodes to when no more than `limit`
/// bytes are taken from it: `None` when the decoder reports an error before
/// `limit` bytes came out. Whether a stream cut short is an error or gives
/// what was decoded of it is the decoder's to say, and is not stated.
pub uninterp spec fn spec_zlib_inflate_prefix(input: Seq<u8>, limit: nat) -> Option<Seq<u8>>;

/// Decodes the zlib stream in `input`, taking no more than `limit` bytes of
/// output. Calls `flate2::read::ZlibDecoder::new` on the bytes, then
/// `Read::take` with the limit and `Read::read_to_end` on the decoder. The
/// contract names the outcome, which depends on the bytes and the limit
/// alone, and claims what `take` documents: no more than `limit` bytes come
/// out. An error is given as its message, whose text is not stated.
#[verifier::external_body]
fn zlib_inflate_at_most(input: &[u8], limit: u64) -> (r: Result<Vec<u8>, String>)
    ensures
        match r {
            Ok(v) => spec_zlib_inflate_prefix(input@, limit as nat) == Some(v@) && v@.len() <= limit,
            Err(_) => spec_zlib_inflate_prefix(input@, limit as nat) is None,
        },
{
    let mut out: Vec<u8> = Vec::new();
    match ZlibDecoder::new(input).take(limit).read_to_end(&mut out) {
        Ok(_) => Ok(out),
        Err(e) => Err(e.to_string()),
    }
}

/// How many decoded bytes are read to decide whether a stream stays within
/// `max_size`: one more than that, as far as a `u64` reaches.
pub open spec fn inflate_limit(max_size: usize) -> nat {
    if max_size < u64::MAX {
        (max_size + 1) as nat
    } else {
        u64::MAX as nat
    }
}

/// What unpacking `input` with a limit of `max_size` gives: the decoded
/// bytes when the stream decodes and stays within the limit, `TooLarge`
/// when more bytes come out, `Inflate` when the stream is broken first.
pub open spec fn inflate_result(input: Seq<u8>, max_size: usize, r: Result<Vec<u8>, DecompressError>) -> bool {
    match spec_zlib_inflate_prefix(input, inflate_limit(max_size)) {
        Some(d) => if d.len() > max_size {
            r == Err::<Vec<u8>, DecompressError>(DecompressError::TooLarge { limit: max_size })
        } else {
            r matches Ok(v) && v@ == d
        },
        None => r matches Err(DecompressError::Inflate(_)),
    }
}

/// Unpacks a zlib stream, refusing one that gives more than `max_size`
/// bytes.
pub fn decompress_zlib(input: &[u8], max_size: usize) -> (r: Result<Vec<u8>, DecompressError>)
    ensures
        inflate_result(input@, max_size, r),
        r matches Ok(v) ==> v@.len() <= max_size,
{
    let m: u64 = max_size as u64;
    let limit: u64 = if m < u64::MAX {
        m + 1
    } else {
        u64::MAX
    };
    match zlib_inflate_at_most(input, limit) {
        Ok(v) => {
            if v.len() > max_size {
                Err(DecompressError::TooLarge { limit: max_size })
            } else {
                Ok(v)
            }
        },
        Err(e) => Err(DecompressError::Inflate(e)),
    }
}

/// Whether `e` is a search result with these fields.
pub open spec fn is_search_result(
    e: Event,
    token: u32,
    from: Seq<char>,
    filename: Seq<char>,
    size: u64,
) -> bool {
    match e {
        Event::SearchResult { token: t, username, filename: f, size: s } => t == token && username@
            == from && f@ == filename && s == size,
        _ => false,
    }
}

/// The events for a search response read from `decompressed`: one search
/// result per response, for its first file, from `from`; none when the
/// response cannot be read or holds no file.
pub open spec fn response_events_ok(decompressed: Seq<u8>, from: Seq<char>, events: Seq<Event>) -> bool {
    match parse_search_response(decompressed) {
        Some(v) => if v.files.len() > 0 {
            events.len() == 1 && is_search_result(events[0], v.token, from, v.files[0].0, v.files[0].1)
        } else {
            events.len() == 0
        },
        None => events.len() == 0,
    }
}

/// Whether `r` is what handling peer message `code` with `payload` from
/// `from` gives.
pub open spec fn peer_message_result(
    code: u32,
    payload: Seq<u8>,
    from: Seq<char>,
    r: Result<Vec<Event>, ProtoError>,
) -> bool {
    if code == TRANSFER_REQUEST {
        match parse_transfer_request(payload) {
            Some((_, token, name, size)) => match r {
                Ok(ev) => ev@.len() == 1 && match ev@[0] {
                    Event::TransferRequest { username, filename, size: s, token: t } => username@
                        == from && filename@ == name && s == (match size {
                        Some(x) => x,
                        None => 0,
                    }) && t == token,
                    _ => false,
                },
                Err(_) => false,
            },
            None => r == Err::<Vec<Event>, ProtoError>(ProtoError::Truncated),
        }
    } else if code == QUEUE_UPLOAD {
        match parse_str(payload, 0) {
            Some(_) => match r {
                Ok(ev) => ev@.len() == 0,
                Err(_) => false,
            },
            None => r == Err::<Vec<Event>, ProtoError>(ProtoError::Truncated),
        }
    } else if code == FILE_SEARCH_RESPONSE {
        match r {
            Ok(ev) => match spec_zlib_inflate_prefix(payload, inflate_limit(MAX_UNCOMPRESSED)) {
                Some(d) => if d.len() <= MAX_UNCOMPRESSED {
                    response_events_ok(d, from, ev@)
                } else {
                    ev@.len() == 0
                },
                None => ev@.len() == 0,
            },
            Err(_) => false,
        }
    } else {
        match r {
            Ok(ev) => ev@.len() == 0,
            Err(_) => false,
        }
    }
}

/// The search result of a decompressed search response from `from`: one
/// event for the response's first file.
pub fn search_response_events(decompressed: &[u8], from: &str) -> (r: Vec<Event>)
    ensures
        response_events_ok(decompressed@, from@, r@),
{
    let mut events: Vec<Event> = Vec::new();
    match decode_search_response(decompressed) {
        Ok(resp) => {
            if resp.results.len() > 0 {
                events.push(
                    Event::SearchResult {
                        token: resp.token,
                        username: from.to_owned(),
                        filename: resp.results[0].path.clone(),
                        size: resp.results[0].size,
                    },
                );
            }
        },
        Err(_) => {},
    }
    events
}

/// Handles a message from peer `from`: a search response gives one search
/// result, for its first file (nothing when it cannot be unpacked or read,
/// or holds no file), a transfer request gives a transfer request event,
/// a queued upload gives nothing;
/// other messages are ignored. A transfer request or queued upload that
/// cannot be read is an error.
pub fn handle_peer_message(code: u32, payload: &[u8], from: &str) -> (r: Result<Vec<Event>, ProtoError>)
    ensures
        peer_message_result(code, payload@, from@, r),
{
    if code == FILE_SEARCH_RESPONSE {
        match decompress_zlib(payload, MAX_UNCOMPRESSED) {
            Ok(d) => {
                let events = search_response_events(d.as_slice(), from);
                Ok(events)
            },
            Err(_) => Ok(Vec::new()),
        }
    } else if code == TRANSFER_REQUEST {
        match decode_transfer_request(payload) {
            Ok(req) => {
                let size = match req.file_size {
                    Some(x) => x,
                    None => 0,
                };
                let mut events = Vec::new();
                events.push(
                    Event::TransferRequest {
                        username: from.to_owned(),
                        filename: req.filename,
                        size,
                        token: req.token,
                    },
                );
                Ok(events)
            },
            Err(e) => Err(e),
        }
    } else if code == QUEUE_UPLOAD {
        match decode_queue_upload(payload) {
            Ok(_) => Ok(Vec::new()),
            Err(e) => Err(e),
        }
    } else {
        Ok(Vec::new())
    }
}

/// The peer-init we send when we open a connection of type `t` reads
/// back, as a peer that accepts it reads it, as our user name and the type
/// `t` itself, whatever the type: the letter we send names the type we mean.
/// A peer naming anything but `P` or `F` is taken as distributed.
pub proof fn law_our_init_reads_back(user: Seq<char>, t: ConnectionType, other: Seq<char>)
    requires
        encode_utf8(user).len() <= u32::MAX,
    ensures
        other != seq!['P'] && other != seq!['F'] ==> incoming_conn_type(other)
            == ConnectionType::Distributed,
        our_init_frame(user, t) == init_frame(
            PEER_INIT,
            peer_init_payload(encode_utf8(user), encode_utf8(conn_letter(t)), PEER_INIT_VERSION),
        ),
        parse_peer_init(
            peer_init_payload(encode_utf8(user), encode_utf8(conn_letter(t)), PEER_INIT_VERSION),
        ) matches Some((u, k, _)) && u == user && incoming_conn_type(k) == t,
{
    let k = conn_letter(t);
    assert(encode_utf8(k).len() <= 4) by {
        reveal_with_fuel(encode_utf8, 2);
        assert(k.len() == 1);
        assert(k.drop_first().len() == 0);
    }
    crate::protocol::peer_msg::law_peer_init_roundtrip(user, k, PEER_INIT_VERSION);
    assert(seq!['P'] != seq!['F']) by {
        assert(seq!['P'][0] != seq!['F'][0]);
    }
    assert(seq!['D'] != seq!['F']) by {
        assert(seq!['D'][0] != seq!['F'][0]);
    }
    assert(seq!['D'] != seq!['P']) by {
        assert(seq!['D'][0] != seq!['P'][0]);
    }
}

} // verus!
