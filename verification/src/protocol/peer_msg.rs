//! Messages between peers: the first message on a connection, search
//! responses and transfer requests.

use vstd::prelude::*;
use vstd::string::StringSliceAdditionalSpecFns;
use crate::protocol::wire::{
    get_str, get_u32, get_u64, get_u8, le32, parse_raw_str, parse_str, parse_u32, parse_u64,
    parse_u8, put_str, put_u32, str_field, u32_at,
};
use crate::protocol::wire::{lemma_text_roundtrip, lemma_u32_roundtrip};
use crate::protocol::ProtoError;
use vstd::utf8::encode_utf8;
use crate::search::search::FileSearchResult;

verus! {

/// First message on a connection opened after the server relayed a request.
pub const PIERCE_FIREWALL: u8 = 0;
/// First message on a connection opened directly.
pub const PEER_INIT: u8 = 1;
/// Files matching a search of ours (compressed).
pub const FILE_SEARCH_RESPONSE: u32 = 9;
/// A peer offers or asks for a file.
pub const TRANSFER_REQUEST: u32 = 40;
/// A peer queues a download from us.
pub const QUEUE_UPLOAD: u32 = 43;

/// The payload of a peer-init message: our user name, the connection type
/// and a token.
pub open spec fn peer_init_payload(username: Seq<u8>, conn_type: Seq<u8>, token: u32) -> Seq<u8> {
    str_field(username) + str_field(conn_type) + le32(token)
}

/// Builds the payload of a peer-init message.
pub fn encode_peer_init(username: &str, conn_type: &str, token: u32) -> (r: Vec<u8>)
    ensures
        r@ == peer_init_payload(username.spec_bytes(), conn_type.spec_bytes(), token),
{
    let mut out: Vec<u8> = Vec::new();
    put_str(&mut out, username);
    put_str(&mut out, conn_type);
    put_u32(&mut out, token);
    assert(out@ =~= peer_init_payload(username.spec_bytes(), conn_type.spec_bytes(), token));
    out
}

/// A peer-init message read from `b`: user name, connection type, token.
pub open spec fn parse_peer_init(b: Seq<u8>) -> Option<(Seq<char>, Seq<char>, u32)> {
    match parse_str(b, 0) {
        Some((user, i)) => match parse_str(b, i) {
            Some((kind, j)) => match parse_u32(b, j) {
                Some((token, _)) => Some((user, kind, token)),
                None => None,
            },
            None => None,
        },
        None => None,
    }
}

/// The first message of a peer that connected to us directly.
#[derive(Debug, Clone, PartialEq)]
pub struct PeerInit {
    pub username: String,
    /// `P`, `F` or `D`.
    pub conn_type: String,
    pub token: u32,
}

/// Reads a peer-init message.
pub fn decode_peer_init(b: &[u8]) -> (r: Result<PeerInit, ProtoError>)
    ensures
        match r {
            Ok(m) => parse_peer_init(b@) == Some((m.username@, m.conn_type@, m.token)),
            Err(e) => parse_peer_init(b@).is_none() && e == ProtoError::Truncated,
        },
{
    let (username, i) = match get_str(b, 0) {
        Some(x) => x,
        None => {
            return Err(ProtoError::Truncated);
        },
    };
    let (conn_type, j) = match get_str(b, i) {
        Some(x) => x,
        None => {
            return Err(ProtoError::Truncated);
        },
    };
    let (token, _) = match get_u32(b, j) {
        Some(x) => x,
        None => {
            return Err(ProtoError::Truncated);
        },
    };
    Ok(PeerInit { username, conn_type, token })
}

/// Reads a pierce-firewall message: its token.
pub fn decode_pierce_firewall(b: &[u8]) -> (r: Result<u32, ProtoError>)
    ensures
        match r {
            Ok(t) => parse_u32(b@, 0) == Some((t, 4int)),
            Err(e) => parse_u32(b@, 0).is_none() && e == ProtoError::Truncated,
        },
{
    match get_u32(b, 0) {
        Some((t, _)) => Ok(t),
        None => Err(ProtoError::Truncated),
    }
}

/// One file of a search response read at `i`: a code byte, the path, the
/// size, the extension, and a count of attribute pairs followed by the
/// pairs; the path and size, and the position after the file.
pub open spec fn parse_file(b: Seq<u8>, i: int) -> Option<((Seq<char>, u64), int)> {
    match parse_u8(b, i) {
        Some((_, i1)) => match parse_str(b, i1) {
            Some((path, i2)) => match parse_u64(b, i2) {
                Some((size, i3)) => match parse_str(b, i3) {
                    Some((_, i4)) => match parse_u32(b, i4) {
                        Some((n, i5)) => if i5 + 8 * n <= b.len() {
                            Some(((path, size), i5 + 8 * n))
                        } else {
                            None
                        },
                        None => None,
                    },
                    None => None,
                },
                None => None,
            },
            None => None,
        },
        None => None,
    }
}

/// `n` files of a search response read at `i`.
pub open spec fn parse_files(b: Seq<u8>, i: int, n: nat) -> Option<(Seq<(Seq<char>, u64)>, int)>
    decreases n,
{
    if n == 0 {
        Some((Seq::empty(), i))
    } else {
        match parse_file(b, i) {
            Some((f, j)) => match parse_files(b, j, (n - 1) as nat) {
                Some((fs, k)) => Some((seq![f] + fs, k)),
                None => None,
            },
            None => None,
        }
    }
}

/// `r` with `acc` before the files it holds.
pub open spec fn after(acc: Seq<(Seq<char>, u64)>, r: Option<(Seq<(Seq<char>, u64)>, int)>) -> Option<
    (Seq<(Seq<char>, u64)>, int),
> {
    match r {
        Some((fs, k)) => Some((acc + fs, k)),
        None => None,
    }
}

/// What a search response holds, as a value of the specification.
pub struct SearchResponseView {
    pub username: Seq<char>,
    pub token: u32,
    pub files: Seq<(Seq<char>, u64)>,
    pub free_slot: bool,
    pub upload_speed: u32,
    pub queue_size: u32,
}

/// A search response read from `b` (once decompressed): user name, token,
/// the count of files, the files, then whether a slot is free, the upload
/// speed and the queue length.
pub open spec fn parse_search_response(b: Seq<u8>) -> Option<SearchResponseView> {
    match parse_str(b, 0) {
        Some((user, i)) => match parse_u32(b, i) {
            Some((token, j)) => match parse_u32(b, j) {
                Some((n, k)) => match parse_files(b, k, n as nat) {
                    Some((files, l)) => match parse_u8(b, l) {
                        Some((slot, l1)) => match parse_u32(b, l1) {
                            Some((speed, l2)) => match parse_u32(b, l2) {
                                Some((queue, _)) => Some(
                                    SearchResponseView {
                                        username: user,
                                        token,
                                        files,
                                        free_slot: slot != 0,
                                        upload_speed: speed,
                                        queue_size: queue,
                                    },
                                ),
                                None => None,
                            },
                            None => None,
                        },
                        None => None,
                    },
                    None => None,
                },
                None => None,
            },
            None => None,
        },
        None => None,
    }
}

/// Files a peer offers in answer to one of our searches.
#[derive(Debug, Clone)]
pub struct FileSearchResponse {
    pub username: String,
    pub token: u32,
    pub results: Vec<FileSearchResult>,
}

/// Whether `r` holds what `v` says: the files in order, each with the
/// response's slot, speed and queue length.
pub open spec fn response_matches(r: FileSearchResponse, v: SearchResponseView) -> bool {
    &&& r.username@ == v.username
    &&& r.token == v.token
    &&& r.results@.len() == v.files.len()
    &&& forall|k: int|
        0 <= k < v.files.len() ==> {
            &&& (#[trigger] r.results@[k]).path@ == v.files[k].0
            &&& r.results@[k].size == v.files[k].1
            &&& r.results@[k].free_upload_slots == v.free_slot
            &&& r.results@[k].upload_speed == v.upload_speed
            &&& r.results@[k].queue_size == v.queue_size
        }
}

fn read_file(b: &[u8], i: usize) -> (r: Option<(String, u64, usize)>)
    ensures
        match parse_file(b@, i as int) {
            Some((f, j)) => r.is_some() && r.unwrap().0@ == f.0 && r.unwrap().1 == f.1
                && r.unwrap().2 == j,
            None => r.is_none(),
        },
{
    let (_, i1) = get_u8(b, i)?;
    let (path, i2) = get_str(b, i1)?;
    let (size, i3) = get_u64(b, i2)?;
    let (_, i4) = get_str(b, i3)?;
    let (n, i5) = get_u32(b, i4)?;
    if i5 <= b.len() && (n as usize) <= (b.len() - i5) / 8 {
        Some((path, size, i5 + 8 * (n as usize)))
    } else {
        None
    }
}

/// Reads a (decompressed) search response.
pub fn decode_search_response(b: &[u8]) -> (r: Result<FileSearchResponse, ProtoError>)
    ensures
        match r {
            Ok(m) => parse_search_response(b@) is Some && response_matches(
                m,
                parse_search_response(b@)->0,
            ),
            Err(e) => parse_search_response(b@).is_none() && e == ProtoError::Truncated,
        },
{
    let (username, i) = match get_str(b, 0) {
        Some(x) => x,
        None => {
            return Err(ProtoError::Truncated);
        },
    };
    let (token, j) = match get_u32(b, i) {
        Some(x) => x,
        None => {
            return Err(ProtoError::Truncated);
        },
    };
    let (n, k) = match get_u32(b, j) {
        Some(x) => x,
        None => {
            return Err(ProtoError::Truncated);
        },
    };
    let mut paths: Vec<String> = Vec::new();
    let mut sizes: Vec<u64> = Vec::new();
    let ghost mut acc: Seq<(Seq<char>, u64)> = Seq::empty();
    let mut pos = k;
    let mut c: u32 = 0;
    while c < n
        invariant
            c <= n,
            pos <= b@.len(),
            paths@.len() == c,
            sizes@.len() == c,
            acc.len() == c,
            forall|m: int|
                0 <= m < c ==> (#[trigger] paths@[m])@ == acc[m].0 && sizes@[m] == acc[m].1,
            parse_files(b@, k as int, n as nat) == after(
                acc,
                parse_files(b@, pos as int, (n - c) as nat),
            ),
            parse_str(b@, 0) == Some((username@, i as int)),
            parse_u32(b@, i as int) == Some((token, j as int)),
            parse_u32(b@, j as int) == Some((n, k as int)),
        decreases n - c,
    {
        match read_file(b, pos) {
            Some((path, size, next)) => {
                let ghost f = (path@, size);
                proof {
                    assert(after(acc, parse_files(b@, pos as int, (n - c) as nat)) == after(
                        acc.push(f),
                        parse_files(b@, next as int, (n - c - 1) as nat),
                    )) by {
                        match parse_files(b@, next as int, (n - c - 1) as nat) {
                            Some((fs, q)) => {
                                assert(acc + (seq![f] + fs) =~= acc.push(f) + fs);
                            },
                            None => {},
                        }
                    }
                    acc = acc.push(f);
                }
                let ghost old_paths = paths@;
                let ghost old_sizes = sizes@;
                paths.push(path);
                sizes.push(size);
                assert forall|m: int| 0 <= m < c + 1 implies (#[trigger] paths@[m])@ == acc[m].0
                    && sizes@[m] == acc[m].1 by {
                    if m < c {
                        assert(paths@[m] == old_paths[m]);
                        assert(sizes@[m] == old_sizes[m]);
                    }
                }
                pos = next;
                c = c + 1;
            },
            None => {
                assert(parse_files(b@, pos as int, (n - c) as nat).is_none());
                assert(parse_search_response(b@).is_none());
                return Err(ProtoError::Truncated);
            },
        }
    }
    assert(parse_files(b@, k as int, n as nat) == Some((acc, pos as int)));
    let (slot, l1) = match get_u8(b, pos) {
        Some(x) => x,
        None => {
            return Err(ProtoError::Truncated);
        },
    };
    let (speed, l2) = match get_u32(b, l1) {
        Some(x) => x,
        None => {
            return Err(ProtoError::Truncated);
        },
    };
    let (queue, _) = match get_u32(b, l2) {
        Some(x) => x,
        None => {
            return Err(ProtoError::Truncated);
        },
    };
    let free = slot != 0;
    let mut results: Vec<FileSearchResult> = Vec::new();
    let mut m: usize = 0;
    while m < paths.len()
        invariant
            m <= paths@.len(),
            paths@.len() == sizes@.len(),
            results@.len() == m,
            forall|q: int|
                0 <= q < m ==> {
                    &&& (#[trigger] results@[q]).path@ == paths@[q]@
                    &&& results@[q].size == sizes@[q]
                    &&& results@[q].free_upload_slots == free
                    &&& results@[q].upload_speed == speed
                    &&& results@[q].queue_size == queue
                },
        decreases paths@.len() - m,
    {
        results.push(
            FileSearchResult {
                path: paths[m].clone(),
                size: sizes[m],
                free_upload_slots: free,
                upload_speed: speed,
                queue_size: queue,
            },
        );
        m = m + 1;
    }
    Ok(FileSearchResponse { username, token, results })
}

/// A transfer request read from `b`: direction, token, file name, and for
/// an upload (direction 1) the size when it is there.
pub open spec fn parse_transfer_request(b: Seq<u8>) -> Option<(u32, u32, Seq<char>, Option<u64>)> {
    match parse_u32(b, 0) {
        Some((dir, i)) => match parse_u32(b, i) {
            Some((token, j)) => match parse_str(b, j) {
                Some((name, k)) => Some(
                    (
                        dir,
                        token,
                        name,
                        if dir == 1 {
                            match parse_u64(b, k) {
                                Some((size, _)) => Some(size),
                                None => None,
                            }
                        } else {
                            None
                        },
                    ),
                ),
                None => None,
            },
            None => None,
        },
        None => None,
    }
}

/// A peer offers us a file (direction 1) or asks for one (direction 0).
#[derive(Debug, Clone, PartialEq)]
pub struct TransferRequest {
    pub direction: u32,
    pub token: u32,
    pub filename: String,
    pub file_size: Option<u64>,
}

/// Reads a transfer request.
pub fn decode_transfer_request(b: &[u8]) -> (r: Result<TransferRequest, ProtoError>)
    ensures
        match r {
            Ok(m) => parse_transfer_request(b@) == Some(
                (m.direction, m.token, m.filename@, m.file_size),
            ),
            Err(e) => parse_transfer_request(b@).is_none() && e == ProtoError::Truncated,
        },
{
    let (direction, i) = match get_u32(b, 0) {
        Some(x) => x,
        None => {
            return Err(ProtoError::Truncated);
        },
    };
    let (token, j) = match get_u32(b, i) {
        Some(x) => x,
        None => {
            return Err(ProtoError::Truncated);
        },
    };
    let (filename, k) = match get_str(b, j) {
        Some(x) => x,
        None => {
            return Err(ProtoError::Truncated);
        },
    };
    let file_size = if direction == 1 {
        match get_u64(b, k) {
            Some((size, _)) => Some(size),
            None => None,
        }
    } else {
        None
    };
    Ok(TransferRequest { direction, token, filename, file_size })
}

/// Reads a queue-upload message: the file name.
pub fn decode_queue_upload(b: &[u8]) -> (r: Result<String, ProtoError>)
    ensures
        match parse_str(b@, 0) {
            Some((s, _)) => r is Ok && r->Ok_0@ == s,
            None => r == Err::<String, ProtoError>(ProtoError::Truncated),
        },
{
    match get_str(b, 0) {
        Some((name, _)) => Ok(name),
        None => Err(ProtoError::Truncated),
    }
}

/// A peer-init message reads back as the user name, connection type and
/// token it was built from.
pub proof fn law_peer_init_roundtrip(user: Seq<char>, kind: Seq<char>, token: u32)
    requires
        encode_utf8(user).len() <= u32::MAX,
        encode_utf8(kind).len() <= u32::MAX,
    ensures
        parse_peer_init(peer_init_payload(encode_utf8(user), encode_utf8(kind), token)) == Some(
            (user, kind, token),
        ),
{
    let eu = encode_utf8(user);
    let ek = encode_utf8(kind);
    let b = peer_init_payload(eu, ek, token);
    assert(b =~= Seq::<u8>::empty() + str_field(eu) + (str_field(ek) + le32(token)));
    lemma_text_roundtrip(Seq::empty(), user, str_field(ek) + le32(token));
    assert(b =~= str_field(eu) + str_field(ek) + le32(token));
    lemma_text_roundtrip(str_field(eu), kind, le32(token));
    assert(b =~= (str_field(eu) + str_field(ek)) + le32(token) + Seq::<u8>::empty());
    lemma_u32_roundtrip(str_field(eu) + str_field(ek), token, Seq::empty());
}

proof fn lemma_u32_shift(pre: Seq<u8>, b: Seq<u8>, post: Seq<u8>, i: int)
    requires
        parse_u32(b, i) is Some,
    ensures
        parse_u32(pre + b + post, pre.len() + i) == Some((u32_at(b, i), pre.len() + i + 4)),
{
    let c = pre + b + post;
    let p = pre.len() as int;
    assert(c[p + i] == b[i]);
    assert(c[p + i + 1] == b[i + 1]);
    assert(c[p + i + 2] == b[i + 2]);
    assert(c[p + i + 3] == b[i + 3]);
}

proof fn lemma_u64_shift(pre: Seq<u8>, b: Seq<u8>, post: Seq<u8>, i: int)
    requires
        parse_u64(b, i) is Some,
    ensures
        parse_u64(pre + b + post, pre.len() + i) == (match parse_u64(b, i) {
            Some((x, j)) => Some((x, pre.len() + j)),
            None => None,
        }),
{
    lemma_u32_shift(pre, b, post, i);
    lemma_u32_shift(pre, b, post, i + 4);
}

proof fn lemma_str_shift(pre: Seq<u8>, b: Seq<u8>, post: Seq<u8>, i: int)
    requires
        parse_raw_str(b, i) is Some,
    ensures
        parse_str(pre + b + post, pre.len() + i) == (match parse_str(b, i) {
            Some((x, j)) => Some((x, pre.len() + j)),
            None => None,
        }),
{
    let c = pre + b + post;
    let p = pre.len() as int;
    lemma_u32_shift(pre, b, post, i);
    let n = u32_at(b, i) as int;
    assert(c.subrange(p + i + 4, p + i + 4 + n) =~= b.subrange(i + 4, i + 4 + n));
}

proof fn lemma_file_shift(pre: Seq<u8>, b: Seq<u8>, post: Seq<u8>, i: int)
    requires
        parse_file(b, i) is Some,
    ensures
        parse_file(pre + b + post, pre.len() + i) == (match parse_file(b, i) {
            Some((f, j)) => Some((f, pre.len() + j)),
            None => None,
        }),
{
    let c = pre + b + post;
    let p = pre.len() as int;
    assert(c[p + i] == b[i]);
    let i1 = i + 1;
    lemma_str_shift(pre, b, post, i1);
    let i2 = match parse_str(b, i1) {
        Some((_, q)) => q,
        None => 0,
    };
    lemma_u64_shift(pre, b, post, i2);
    let i3 = i2 + 8;
    lemma_str_shift(pre, b, post, i3);
    let i4 = match parse_str(b, i3) {
        Some((_, q)) => q,
        None => 0,
    };
    lemma_u32_shift(pre, b, post, i4);
}

proof fn lemma_files_shift(pre: Seq<u8>, b: Seq<u8>, post: Seq<u8>, i: int, n: nat)
    requires
        parse_files(b, i, n) is Some,
    ensures
        parse_files(pre + b + post, pre.len() + i, n) == (match parse_files(b, i, n) {
            Some((fs, j)) => Some((fs, pre.len() + j)),
            None => None,
        }),
    decreases n,
{
    if n > 0 {
        lemma_file_shift(pre, b, post, i);
        let j = match parse_file(b, i) {
            Some((_, q)) => q,
            None => 0,
        };
        lemma_files_shift(pre, b, post, j, (n - 1) as nat);
    }
}

proof fn lemma_pad(x: Seq<u8>)
    ensures
        Seq::<u8>::empty() + x + Seq::<u8>::empty() == x,
{
    assert(Seq::<u8>::empty() + x + Seq::<u8>::empty() =~= x);
}

proof fn lemma_pad_right(x: Seq<u8>, y: Seq<u8>)
    ensures
        x + y + Seq::<u8>::empty() == x + y,
{
    assert(x + y + Seq::<u8>::empty() =~= x + y);
}

proof fn lemma_ext_u32(x: Seq<u8>, y: Seq<u8>, i: int)
    requires
        parse_u32(x, i) is Some,
    ensures
        parse_u32(x + y, i) == parse_u32(x, i),
{
    lemma_u32_shift(Seq::empty(), x, y, i);
    assert(Seq::<u8>::empty() + x + y =~= x + y);
}

proof fn lemma_ext_str(x: Seq<u8>, y: Seq<u8>, i: int)
    requires
        parse_str(x, i) is Some,
    ensures
        parse_str(x + y, i) == parse_str(x, i),
{
    lemma_str_shift(Seq::empty(), x, y, i);
    assert(Seq::<u8>::empty() + x + y =~= x + y);
}

proof fn lemma_ext_files(x: Seq<u8>, y: Seq<u8>, i: int, n: nat)
    requires
        parse_files(x, i, n) is Some,
    ensures
        parse_files(x + y, i, n) == parse_files(x, i, n),
{
    lemma_files_shift(Seq::empty(), x, y, i, n);
    assert(Seq::<u8>::empty() + x + y =~= x + y);
}

/// A search response on the wire: the user name, the token, the count of
/// files, the files (`files`, as bytes), then whether a slot is free, the
/// upload speed and the queue length.
pub open spec fn search_response_bytes(
    user: Seq<char>,
    token: u32,
    n: u32,
    files: Seq<u8>,
    slot: u8,
    speed: u32,
    queue: u32,
) -> Seq<u8> {
    str_field(encode_utf8(user)) + le32(token) + le32(n) + files + seq![slot] + le32(speed) + le32(
        queue,
    )
}

proof fn lemma_files_in_middle(
    pre: Seq<u8>,
    files: Seq<u8>,
    post: Seq<u8>,
    n: nat,
    listed: Seq<(Seq<char>, u64)>,
)
    requires
        parse_files(files, 0, n) == Some((listed, files.len() as int)),
    ensures
        parse_files(pre + files + post, pre.len() as int, n) == Some(
            (listed, (pre.len() + files.len()) as int),
        ),
{
    lemma_files_shift(pre, files, post, 0, n);
}

proof fn lemma_assoc4(a: Seq<u8>, f: Seq<u8>, s: Seq<u8>, p: Seq<u8>, q: Seq<u8>)
    ensures
        a + (f + s + p + q) == a + f + s + p + q,
{
    assert(a + (f + s + p + q) =~= a + f + s + p + q);
}

proof fn lemma_response_head(
    user: Seq<char>,
    token: u32,
    n: u32,
    files: Seq<u8>,
    slot: u8,
    speed: u32,
    queue: u32,
)
    requires
        encode_utf8(user).len() <= u32::MAX,
    ensures
        ({
            let b = search_response_bytes(user, token, n, files, slot, speed, queue);
            let l1 = 4 + encode_utf8(user).len() as int;
            &&& parse_str(b, 0) == Some((user, l1))
            &&& parse_u32(b, l1) == Some((token, l1 + 4))
            &&& parse_u32(b, l1 + 4) == Some((n, l1 + 8))
        }),
{
    let ek = encode_utf8(user);
    let a1 = str_field(ek);
    let a2 = a1 + le32(token);
    let a3 = a2 + le32(n);
    let rest = files + seq![slot] + le32(speed) + le32(queue);
    let b = search_response_bytes(user, token, n, files, slot, speed, queue);
    let e = Seq::<u8>::empty();
    lemma_assoc4(a3, files, seq![slot], le32(speed), le32(queue));
    lemma_text_roundtrip(e, user, e);
    lemma_pad(a1);
    lemma_ext_str(a1, le32(token), 0);
    lemma_ext_str(a2, le32(n), 0);
    lemma_ext_str(a3, rest, 0);
    lemma_u32_roundtrip(a1, token, e);
    lemma_pad_right(a1, le32(token));
    lemma_ext_u32(a2, le32(n), a1.len() as int);
    lemma_ext_u32(a3, rest, a1.len() as int);
    lemma_u32_roundtrip(a2, n, e);
    lemma_pad_right(a2, le32(n));
    lemma_ext_u32(a3, rest, a2.len() as int);
}

proof fn lemma_response_files(
    user: Seq<char>,
    token: u32,
    n: u32,
    files: Seq<u8>,
    listed: Seq<(Seq<char>, u64)>,
    slot: u8,
    speed: u32,
    queue: u32,
)
    requires
        parse_files(files, 0, n as nat) == Some((listed, files.len() as int)),
    ensures
        ({
            let b = search_response_bytes(user, token, n, files, slot, speed, queue);
            let l1 = 4 + encode_utf8(user).len() as int;
            parse_files(b, l1 + 8, n as nat) == Some((listed, l1 + 8 + files.len()))
        }),
{
    let pre = str_field(encode_utf8(user)) + le32(token) + le32(n);
    let post = seq![slot] + le32(speed) + le32(queue);
    let b = search_response_bytes(user, token, n, files, slot, speed, queue);
    let x = pre + files;
    vstd::seq_lib::lemma_concat_associative(x, seq![slot], le32(speed));
    vstd::seq_lib::lemma_concat_associative(x, seq![slot] + le32(speed), le32(queue));
    assert(b == x + post);
    lemma_files_in_middle(pre, files, post, n as nat, listed);
    assert(pre.len() == 12 + encode_utf8(user).len());
}

proof fn lemma_response_tail(
    user: Seq<char>,
    token: u32,
    n: u32,
    files: Seq<u8>,
    slot: u8,
    speed: u32,
    queue: u32,
)
    ensures
        ({
            let b = search_response_bytes(user, token, n, files, slot, speed, queue);
            let l4 = 12 + encode_utf8(user).len() as int + files.len() as int;
            &&& parse_u8(b, l4) == Some((slot, l4 + 1))
            &&& parse_u32(b, l4 + 1) == Some((speed, l4 + 5))
            &&& parse_u32(b, l4 + 5) == Some((queue, l4 + 9))
        }),
{
    let a4 = str_field(encode_utf8(user)) + le32(token) + le32(n) + files;
    let a5 = a4 + seq![slot];
    let a6 = a5 + le32(speed);
    let b = search_response_bytes(user, token, n, files, slot, speed, queue);
    let e = Seq::<u8>::empty();
    assert(b == a6 + le32(queue));
    assert(b[a4.len() as int] == slot);
    lemma_u32_roundtrip(a5, speed, e);
    lemma_pad_right(a5, le32(speed));
    lemma_ext_u32(a6, le32(queue), a5.len() as int);
    lemma_u32_roundtrip(a6, queue, e);
    lemma_pad_right(a6, le32(queue));
}

/// A search response reads back as what it was built from: the user name,
/// the token, the `n` files its file bytes hold, a free slot exactly when
/// the slot byte is not zero, and the upload speed and queue length each in
/// its own place.
pub proof fn law_search_response_roundtrip(
    user: Seq<char>,
    token: u32,
    n: u32,
    files: Seq<u8>,
    listed: Seq<(Seq<char>, u64)>,
    slot: u8,
    speed: u32,
    queue: u32,
)
    requires
        encode_utf8(user).len() <= u32::MAX,
        parse_files(files, 0, n as nat) == Some((listed, files.len() as int)),
    ensures
        parse_search_response(search_response_bytes(user, token, n, files, slot, speed, queue))
            == Some(
            SearchResponseView {
                username: user,
                token,
                files: listed,
                free_slot: slot != 0,
                upload_speed: speed,
                queue_size: queue,
            },
        ),
{
    let b = search_response_bytes(user, token, n, files, slot, speed, queue);
    let l1 = 4 + encode_utf8(user).len() as int;
    let l4 = l1 + 8 + files.len() as int;
    lemma_response_head(user, token, n, files, slot, speed, queue);
    lemma_response_files(user, token, n, files, listed, slot, speed, queue);
    lemma_response_tail(user, token, n, files, slot, speed, queue);
    assert(parse_str(b, 0) == Some((user, l1)));
    assert(parse_u32(b, l1) == Some((token, l1 + 4)));
    assert(parse_u32(b, l1 + 4) == Some((n, l1 + 8)));
    assert(parse_files(b, l1 + 8, n as nat) == Some((listed, l4)));
    assert(parse_u8(b, l4) == Some((slot, l4 + 1)));
    assert(parse_u32(b, l4 + 1) == Some((speed, l4 + 5)));
    assert(parse_u32(b, l4 + 5) == Some((queue, l4 + 9)));
}

} // verus!
