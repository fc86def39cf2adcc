//! MD5 digests, written as lowercase hexadecimal.

use vstd::prelude::*;
use vstd::string::StringSliceAdditionalSpecFns;
use crate::protocol::wire::put_bytes;

verus! {

/// The MD5 digest of a byte string.
pub uninterp spec fn spec_md5(data: Seq<u8>) -> Seq<u8>;

/// The MD5 digest of `data`. Calls `md5::compute`; the contract claims that
/// the digest is a function of the bytes alone.
#[verifier::external_body]
pub(crate) fn md5_digest(data: &[u8]) -> (r: [u8; 16])
    ensures
        r@ == spec_md5(data@),
{
    md5::compute(data).0
}

/// The lowercase hexadecimal digit for `n` (below 16).
pub open spec fn hex_digit(n: int) -> char {
    if n < 10 {
        (48 + n) as char
    } else {
        (87 + n) as char
    }
}

/// Each byte as two lowercase hexadecimal digits, high half first.
pub open spec fn hex_of(s: Seq<u8>) -> Seq<char>
    decreases s.len(),
{
    if s.len() == 0 {
        Seq::empty()
    } else {
        hex_of(s.drop_last()) + seq![hex_digit(s.last() as int / 16), hex_digit(s.last() as int % 16)]
    }
}

fn hex_digit_char(n: u8) -> (c: char)
    requires
        n < 16,
    ensures
        c == hex_digit(n as int),
{
    if n < 10 {
        (48 + n) as char
    } else {
        (87 + n) as char
    }
}

/// Writes each byte as two lowercase hexadecimal digits.
pub fn hex_lower(bytes: &[u8]) -> (r: String)
    ensures
        r@ == hex_of(bytes@),
{
    let mut r = String::new();
    let mut i: usize = 0;
    while i < bytes.len()
        invariant
            i <= bytes@.len(),
            r@ == hex_of(bytes@.take(i as int)),
        decreases bytes@.len() - i,
    {
        assert(bytes@.take(i + 1).drop_last() =~= bytes@.take(i as int));
        let b = bytes[i];
        r.push(hex_digit_char(b / 16));
        r.push(hex_digit_char(b % 16));
        i = i + 1;
    }
    assert(bytes@.take(i as int) =~= bytes@);
    r
}

/// The lowercase hexadecimal MD5 digest of the bytes of `a` followed by those
/// of `b`.
pub fn md5_hex_of_pair(a: &str, b: &str) -> (r: String)
    ensures
        r@ == hex_of(spec_md5(a.spec_bytes() + b.spec_bytes())),
{
    let mut data: Vec<u8> = Vec::new();
    put_bytes(&mut data, a.as_bytes());
    put_bytes(&mut data, b.as_bytes());
    assert(data@ =~= a.spec_bytes() + b.spec_bytes());
    let d = md5_digest(data.as_slice());
    hex_lower(&d)
}

} // verus!
