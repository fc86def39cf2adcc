//! Integers, booleans and strings as they travel on the wire: integers are
//! little-endian, a boolean is one byte, a string is its byte length as a
//! 32-bit integer followed by its bytes.

use vstd::prelude::*;
use vstd::string::StringSliceAdditionalSpecFns;
use vstd::utf8::{decode_utf8, encode_utf8, valid_utf8};

verus! {

/// The four little-endian bytes of `x`.
pub open spec fn le32(x: u32) -> Seq<u8> {
    seq![
        (x % 256) as u8,
        ((x / 256) % 256) as u8,
        ((x / 65536) % 256) as u8,
        ((x / 16777216) % 256) as u8,
    ]
}

/// The little-endian 32-bit integer at `i` in `b`.
pub open spec fn u32_at(b: Seq<u8>, i: int) -> u32 {
    (b[i] + 256 * b[i + 1] + 65536 * b[i + 2] + 16777216 * b[i + 3]) as u32
}

/// The little-endian 64-bit integer at `i` in `b`.
pub open spec fn u64_at(b: Seq<u8>, i: int) -> u64 {
    (u32_at(b, i) + 4294967296 * u32_at(b, i + 4)) as u64
}

/// A string on the wire: its byte length, then its bytes.
pub open spec fn str_field(s: Seq<u8>) -> Seq<u8> {
    le32(s.len() as u32) + s
}

/// A boolean on the wire.
pub open spec fn bool_byte(v: bool) -> Seq<u8> {
    seq![if v { 1u8 } else { 0u8 }]
}

/// A byte read at `i`, and the position after it.
pub open spec fn parse_u8(b: Seq<u8>, i: int) -> Option<(u8, int)> {
    if 0 <= i && i + 1 <= b.len() {
        Some((b[i], i + 1))
    } else {
        None
    }
}

/// A 32-bit integer read at `i`, and the position after it.
pub open spec fn parse_u32(b: Seq<u8>, i: int) -> Option<(u32, int)> {
    if 0 <= i && i + 4 <= b.len() {
        Some((u32_at(b, i), i + 4))
    } else {
        None
    }
}

/// A 64-bit integer read at `i`, and the position after it.
pub open spec fn parse_u64(b: Seq<u8>, i: int) -> Option<(u64, int)> {
    if 0 <= i && i + 8 <= b.len() {
        Some((u64_at(b, i), i + 8))
    } else {
        None
    }
}

/// The bytes of a string read at `i`, and the position after it.
pub open spec fn parse_raw_str(b: Seq<u8>, i: int) -> Option<(Seq<u8>, int)> {
    match parse_u32(b, i) {
        Some((n, j)) => if j + n <= b.len() {
            Some((b.subrange(j, j + n), j + n))
        } else {
            None
        },
        None => None,
    }
}

/// What `String::from_utf8_lossy` makes of a byte string: the text it
/// encodes, with each invalid sequence replaced by U+FFFD.
pub uninterp spec fn spec_utf8_lossy(bytes: Seq<u8>) -> Seq<char>;

/// The text of a byte string: what valid UTF-8 encodes, or else what
/// `String::from_utf8_lossy` makes of it.
pub open spec fn utf8_text(bytes: Seq<u8>) -> Seq<char> {
    if valid_utf8(bytes) {
        decode_utf8(bytes)
    } else {
        spec_utf8_lossy(bytes)
    }
}

/// A string read at `i`, and the position after it.
pub open spec fn parse_str(b: Seq<u8>, i: int) -> Option<(Seq<char>, int)> {
    match parse_raw_str(b, i) {
        Some((s, j)) => Some((utf8_text(s), j)),
        None => None,
    }
}

/// Decodes UTF-8, replacing invalid sequences. Calls
/// `String::from_utf8_lossy`; the contract claims that valid UTF-8 comes
/// back as the text it encodes, as the documentation says, and that for
/// other bytes the text is a function of the bytes.
#[verifier::external_body]
pub(crate) fn utf8_lossy(bytes: &[u8]) -> (r: String)
    ensures
        r@ == (if valid_utf8(bytes@) {
            decode_utf8(bytes@)
        } else {
            spec_utf8_lossy(bytes@)
        }),
{
    String::from_utf8_lossy(bytes).into_owned()
}

/// Appends a byte.
pub fn put_u8(out: &mut Vec<u8>, x: u8)
    ensures
        final(out)@ == old(out)@ + seq![x],
{
    out.push(x);
}

/// Appends a boolean.
pub fn put_bool(out: &mut Vec<u8>, v: bool)
    ensures
        final(out)@ == old(out)@ + bool_byte(v),
{
    out.push(if v {
        1u8
    } else {
        0u8
    });
}

/// Appends a little-endian 32-bit integer.
pub fn put_u32(out: &mut Vec<u8>, x: u32)
    ensures
        final(out)@ == old(out)@ + le32(x),
{
    out.push((x % 256) as u8);
    out.push(((x / 256) % 256) as u8);
    out.push(((x / 65536) % 256) as u8);
    out.push(((x / 16777216) % 256) as u8);
    assert(out@ =~= old(out)@ + le32(x));
}

/// Appends the bytes of `s`.
pub fn put_bytes(out: &mut Vec<u8>, s: &[u8])
    ensures
        final(out)@ == old(out)@ + s@,
{
    let mut i: usize = 0;
    while i < s.len()
        invariant
            i <= s@.len(),
            out@ == old(out)@ + s@.take(i as int),
        decreases s@.len() - i,
    {
        out.push(s[i]);
        i = i + 1;
        assert(out@ =~= old(out)@ + s@.take(i as int));
    }
    assert(s@.take(i as int) =~= s@);
}

/// Appends a string: its byte length, then its bytes.
pub fn put_str(out: &mut Vec<u8>, s: &str)
    ensures
        final(out)@ == old(out)@ + str_field(s.spec_bytes()),
{
    let b = s.as_bytes();
    put_u32(out, b.len() as u32);
    put_bytes(out, b);
    assert(out@ =~= old(out)@ + str_field(s.spec_bytes()));
}

/// The bytes `b[from..to]`.
pub fn copy_range(b: &[u8], from: usize, to: usize) -> (r: Vec<u8>)
    requires
        from <= to <= b@.len(),
    ensures
        r@ == b@.subrange(from as int, to as int),
{
    let mut r: Vec<u8> = Vec::new();
    let mut i = from;
    while i < to
        invariant
            from <= i <= to <= b@.len(),
            r@ == b@.subrange(from as int, i as int),
        decreases to - i,
    {
        r.push(b[i]);
        i = i + 1;
        assert(r@ =~= b@.subrange(from as int, i as int));
    }
    r
}

/// Reads a byte at `i`.
pub fn get_u8(b: &[u8], i: usize) -> (r: Option<(u8, usize)>)
    ensures
        match parse_u8(b@, i as int) {
            Some((v, j)) => r.is_some() && r.unwrap().0 == v && r.unwrap().1 == j,
            None => r.is_none(),
        },
{
    if i < b.len() {
        Some((b[i], i + 1))
    } else {
        None
    }
}

/// Reads a little-endian 32-bit integer at `i`.
pub fn get_u32(b: &[u8], i: usize) -> (r: Option<(u32, usize)>)
    ensures
        match parse_u32(b@, i as int) {
            Some((v, j)) => r.is_some() && r.unwrap().0 == v && r.unwrap().1 == j,
            None => r.is_none(),
        },
{
    if i <= b.len() && b.len() - i >= 4 {
        let v = (b[i] as u32) + (b[i + 1] as u32) * 256 + (b[i + 2] as u32) * 65536 + (b[i
            + 3] as u32) * 16777216;
        Some((v, i + 4))
    } else {
        None
    }
}

/// Reads a little-endian 64-bit integer at `i`.
pub fn get_u64(b: &[u8], i: usize) -> (r: Option<(u64, usize)>)
    ensures
        match parse_u64(b@, i as int) {
            Some((v, j)) => r.is_some() && r.unwrap().0 == v && r.unwrap().1 == j,
            None => r.is_none(),
        },
{
    if i <= b.len() && b.len() - i >= 8 {
        let (lo, _) = get_u32(b, i).unwrap();
        let (hi, _) = get_u32(b, i + 4).unwrap();
        let v = (lo as u64) + (hi as u64) * 4294967296;
        Some((v, i + 8))
    } else {
        None
    }
}

/// Reads the bytes of a string at `i`.
pub fn get_raw_str(b: &[u8], i: usize) -> (r: Option<(Vec<u8>, usize)>)
    ensures
        match parse_raw_str(b@, i as int) {
            Some((s, j)) => r.is_some() && r.unwrap().0@ == s && r.unwrap().1 == j,
            None => r.is_none(),
        },
{
    match get_u32(b, i) {
        Some((n, j)) => {
            if (n as usize) <= b.len() - j {
                let s = copy_range(b, j, j + n as usize);
                Some((s, j + n as usize))
            } else {
                None
            }
        },
        None => None,
    }
}

/// Reads a string at `i`, replacing invalid UTF-8.
pub fn get_str(b: &[u8], i: usize) -> (r: Option<(String, usize)>)
    ensures
        match parse_str(b@, i as int) {
            Some((s, j)) => r.is_some() && r.unwrap().0@ == s && r.unwrap().1 == j,
            None => r.is_none(),
        },
{
    match get_raw_str(b, i) {
        Some((s, j)) => Some((utf8_lossy(s.as_slice()), j)),
        None => None,
    }
}

/// Reading a 32-bit integer gives back the one written, whatever comes
/// before and after it.
pub proof fn lemma_u32_roundtrip(pre: Seq<u8>, x: u32, post: Seq<u8>)
    ensures
        parse_u32(pre + le32(x) + post, pre.len() as int) == Some((x, pre.len() + 4int)),
{
    let b = pre + le32(x) + post;
    let i = pre.len() as int;
    assert(b[i] == le32(x)[0]);
    assert(b[i + 1] == le32(x)[1]);
    assert(b[i + 2] == le32(x)[2]);
    assert(b[i + 3] == le32(x)[3]);
    assert(x == x % 256 + 256 * ((x / 256) % 256) + 65536 * ((x / 65536) % 256) + 16777216 * ((x
        / 16777216) % 256)) by (nonlinear_arith);
}

/// Reading the bytes of a string gives back the bytes written, whatever
/// comes before and after them.
pub proof fn lemma_str_roundtrip(pre: Seq<u8>, s: Seq<u8>, post: Seq<u8>)
    requires
        s.len() <= u32::MAX,
    ensures
        parse_raw_str(pre + str_field(s) + post, pre.len() as int) == Some(
            (s, pre.len() + 4int + s.len()),
        ),
{
    let b = pre + str_field(s) + post;
    assert(b =~= pre + le32(s.len() as u32) + (s + post));
    lemma_u32_roundtrip(pre, s.len() as u32, s + post);
    assert(b.subrange(pre.len() + 4int, pre.len() + 4int + s.len()) =~= s);
}

/// Reading a string gives back the string written, whatever comes before
/// and after it.
pub proof fn lemma_text_roundtrip(pre: Seq<u8>, s: Seq<char>, post: Seq<u8>)
    requires
        encode_utf8(s).len() <= u32::MAX,
    ensures
        parse_str(pre + str_field(encode_utf8(s)) + post, pre.len() as int) == Some(
            (s, pre.len() + 4int + encode_utf8(s).len()),
        ),
{
    lemma_str_roundtrip(pre, encode_utf8(s), post);
    vstd::utf8::encode_utf8_valid_utf8(s);
    vstd::utf8::encode_utf8_decode_utf8(s);
}

} // verus!
