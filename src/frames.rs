//! The framing of the metadata carried in a custom section: each record is a
//! four-byte little-endian length followed by that many bytes of JSON.
use vstd::prelude::*;

verus! {

/// The length written in the four header bytes that start at `at`.
pub open spec fn le32_at(p: Seq<u8>, at: int) -> nat {
    (p[at] as nat) + (p[at + 1] as nat) * 256 + (p[at + 2] as nat) * 65536 + (p[at + 3] as nat)
        * 16777216
}

/// Whether the bytes of `p` from `at` on begin with a whole frame: a header
/// and a body as long as the header says.
pub open spec fn frame_fits(p: Seq<u8>, at: int) -> bool {
    &&& 0 <= at
    &&& at + 4 <= p.len()
    &&& at + 4 + le32_at(p, at) <= p.len()
}

/// Reads the frame header at `at`. `None` when the header or the body it
/// announces runs past the end of `p`; otherwise the body's length.
pub fn read_frame_len(p: &[u8], at: usize) -> (r: Option<usize>)
    requires
        at <= p@.len(),
    ensures
        r is Some <==> frame_fits(p@, at as int),
        r is Some ==> r->0 == le32_at(p@, at as int),
{
    if p.len() - at < 4 {
        return None;
    }
    let len: u64 = (p[at] as u64) + (p[at + 1] as u64) * 256 + (p[at + 2] as u64) * 65536
        + (p[at + 3] as u64) * 16777216;
    if len > (p.len() - at - 4) as u64 {
        None
    } else {
        Some(len as usize)
    }
}

} // verus!
