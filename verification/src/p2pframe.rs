//! Framing of the JSON messages exchanged over the P2P request/response
//! protocol: a 4-byte big-endian length, then the payload.
use vstd::prelude::*;

verus! {

/// The largest payload a peer accepts (2 MiB).
pub const MAX_P2P_PAYLOAD_BYTES: usize = 2097152;

/// The big-endian value of four bytes.
pub open spec fn be_u32(b: Seq<u8>) -> int {
    b[0] * 16777216 + b[1] * 65536 + b[2] * 256 + b[3]
}

/// The four big-endian bytes of `n`.
pub open spec fn be_bytes(n: u32) -> Seq<u8> {
    seq![(n / 16777216) as u8, (n / 65536 % 256) as u8, (n / 256 % 256) as u8, (n % 256) as u8]
}

/// A frame: the payload's length (as `u32`, modulo 2^32) in big-endian
/// order, then the payload.
pub open spec fn spec_frame(payload: Seq<u8>) -> Seq<u8> {
    be_bytes((payload.len() % 4294967296) as u32) + payload
}

/// Frames a payload for the wire.
pub fn frame_payload(payload: &[u8]) -> (r: Vec<u8>)
    ensures
        r@ == spec_frame(payload@),
{
    let n: u32 = (payload.len() as u64 % 4294967296) as u32;
    let mut out: Vec<u8> = Vec::new();
    out.push((n / 16777216) as u8);
    out.push((n / 65536 % 256) as u8);
    out.push((n / 256 % 256) as u8);
    out.push((n % 256) as u8);
    let mut i: usize = 0;
    while i < payload.len()
        invariant
            i <= payload.len(),
            out@ == be_bytes(n) + payload@.take(i as int),
        decreases payload.len() - i,
    {
        out.push(payload[i]);
        proof {
            assert(payload@.take(i + 1) =~= payload@.take(i as int).push(payload@[i as int]));
        }
        i += 1;
    }
    proof {
        assert(payload@.take(i as int) =~= payload@);
    }
    out
}

/// Why a frame header is refused.
#[derive(Clone, Copy, Debug, PartialEq, Eq, Structural)]
pub enum FrameError {
    /// Fewer than four bytes.
    Truncated,
    /// The announced length is zero or above the limit.
    BadLength,
}

/// The payload length a frame header announces: the big-endian value of its
/// first four bytes, which must be between 1 and the limit.
pub fn frame_length(header: &[u8]) -> (r: Result<usize, FrameError>)
    ensures
        match r {
            Ok(n) => header@.len() >= 4 && n == be_u32(header@) && 0 < n <= MAX_P2P_PAYLOAD_BYTES,
            Err(e) => (header@.len() < 4 && e == FrameError::Truncated)
                || (header@.len() >= 4 && (be_u32(header@) == 0 || be_u32(header@) > MAX_P2P_PAYLOAD_BYTES) && e == FrameError::BadLength),
        },
{
    if header.len() < 4 {
        return Err(FrameError::Truncated);
    }
    let n: u32 = (header[0] as u32) * 16777216 + (header[1] as u32) * 65536 + (header[2] as u32) * 256 + (header[3] as u32);
    if n == 0 || n as usize > MAX_P2P_PAYLOAD_BYTES {
        return Err(FrameError::BadLength);
    }
    Ok(n as usize)
}

/// The header of a frame announces the framed payload's length.
pub proof fn lemma_frame_header_length(payload: Seq<u8>)
    requires
        payload.len() < 4294967296,
    ensures
        be_u32(spec_frame(payload)) == payload.len(),
{
    let n = (payload.len() % 4294967296) as u32;
    assert(n == payload.len());
    let f = spec_frame(payload);
    assert(f[0] == (n / 16777216) as u8 && f[1] == (n / 65536 % 256) as u8 && f[2] == (n / 256 % 256) as u8 && f[3] == (n % 256) as u8);
    assert(((n / 16777216) as u8) * 16777216 + ((n / 65536 % 256) as u8) * 65536 + ((n / 256 % 256) as u8) * 256 + ((n % 256) as u8) == n) by (bit_vector);
}

/// A frame holds its payload right after the header.
pub proof fn lemma_frame_payload(payload: Seq<u8>)
    ensures
        spec_frame(payload).len() == payload.len() + 4,
        spec_frame(payload).skip(4) == payload,
{
    assert(spec_frame(payload).skip(4) =~= payload);
}

} // verus!
