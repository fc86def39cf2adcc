//! Server message frames: a 32-bit length counting what follows, the 32-bit
//! message code, then the payload.

use vstd::prelude::*;
use crate::protocol::wire::{le32, put_bytes, put_u32, u32_at};
use crate::protocol::ProtoError;

verus! {

/// The frame of a message with `code` and `payload`.
pub open spec fn frame(code: u32, payload: Seq<u8>) -> Seq<u8> {
    le32((4 + payload.len()) as u32) + le32(code) + payload
}

/// Frames a message.
pub fn write_frame(code: u32, payload: &[u8]) -> (r: Vec<u8>)
    ensures
        r@ == frame(code, payload@),
{
    let total: u128 = payload.len() as u128 + 4;
    let mut out: Vec<u8> = Vec::new();
    put_u32(&mut out, total as u32);
    put_u32(&mut out, code);
    put_bytes(&mut out, payload);
    assert(out@ =~= frame(code, payload@));
    out
}

/// Whether reading a frame from `b` runs into a length too short to hold a
/// code: a whole frame is there, and its length is below 4.
pub open spec fn short_frame(b: Seq<u8>) -> bool {
    b.len() >= 4 && b.len() - 4 >= u32_at(b, 0) && u32_at(b, 0) < 4
}

/// What reading a frame from the front of `b` gives (when a whole frame is
/// there), and how many bytes it takes off the front: none when the length
/// is not all there or the rest of the frame is not all there (the frame
/// stays in the buffer until it has arrived whole), the whole frame
/// otherwise.
pub open spec fn frame_read(b: Seq<u8>) -> (Option<(u32, Seq<u8>)>, int) {
    if b.len() < 4 {
        (None, 0)
    } else if b.len() - 4 < u32_at(b, 0) {
        (None, 0)
    } else {
        let n = u32_at(b, 0) as int;
        (Some((u32_at(b, 4), b.subrange(8, 4 + n))), 4 + n)
    }
}

/// Reads a frame from the front of `buf`, taking what it read off the
/// front.
pub fn read_frame(buf: &mut Vec<u8>) -> (r: Result<Option<(u32, Vec<u8>)>, ProtoError>)
    requires
        !short_frame(old(buf)@),
    ensures
        match r {
            Ok(Some((code, payload))) => frame_read(old(buf)@).0 == Some((code, payload@)),
            Ok(None) => frame_read(old(buf)@).0.is_none(),
            Err(_) => false,
        },
        final(buf)@ == old(buf)@.skip(frame_read(old(buf)@).1),
{
    let n = buf.len();
    if n < 4 {
        return Ok(None);
    }
    let len = (buf[0] as u32) + (buf[1] as u32) * 256 + (buf[2] as u32) * 65536 + (buf[3] as u32)
        * 16777216;
    if n - 4 < len as usize {
        assert(old(buf)@.skip(0) =~= old(buf)@);
        return Ok(None);
    }
    let end = 4 + len as usize;
    let code = (buf[4] as u32) + (buf[5] as u32) * 256 + (buf[6] as u32) * 65536 + (buf[7] as u32)
        * 16777216;
    let payload = copy_vec_range(buf, 8, end);
    let rest = take_front(buf, end);
    *buf = rest;
    Ok(Some((code, payload)))
}

fn copy_vec_range(b: &Vec<u8>, from: usize, to: usize) -> (r: Vec<u8>)
    requires
        from <= to <= b@.len(),
    ensures
        r@ == b@.subrange(from as int, to as int),
{
    let mut r: Vec<u8> = Vec::new();
    let mut i = from;
    while i < to
        invariant
            from <= i <= to <= b@.len(),
            r@ == b@.subrange(from as int, i as int),
        decreases to - i,
    {
        r.push(b[i]);
        i = i + 1;
        assert(r@ =~= b@.subrange(from as int, i as int));
    }
    r
}

/// The bytes of `b` after the first `k`.
fn take_front(b: &Vec<u8>, k: usize) -> (r: Vec<u8>)
    requires
        k <= b@.len(),
    ensures
        r@ == b@.skip(k as int),
{
    let r = copy_vec_range(b, k, b.len());
    assert(r@ =~= b@.skip(k as int));
    r
}

/// A framed message reads back as the code and payload it was framed with,
/// and exactly the frame is taken off the front of the buffer, whatever
/// follows it.
pub proof fn law_frame_roundtrip(code: u32, payload: Seq<u8>, rest: Seq<u8>)
    requires
        payload.len() + 4 <= u32::MAX,
    ensures
        !short_frame(frame(code, payload) + rest),
        frame_read(frame(code, payload) + rest) == (
            Some((code, payload)),
            frame(code, payload).len() as int,
        ),
        (frame(code, payload) + rest).skip(frame(code, payload).len() as int) == rest,
{
    let b = frame(code, payload) + rest;
    let n = (4 + payload.len()) as u32;
    assert(b =~= Seq::<u8>::empty() + le32(n) + (le32(code) + payload + rest));
    crate::protocol::wire::lemma_u32_roundtrip(Seq::empty(), n, le32(code) + payload + rest);
    assert(b =~= le32(n) + le32(code) + (payload + rest));
    crate::protocol::wire::lemma_u32_roundtrip(le32(n), code, payload + rest);
    assert(b.subrange(8, 4 + n) =~= payload);
    assert(b.skip(frame(code, payload).len() as int) =~= rest);
}

} // verus!
