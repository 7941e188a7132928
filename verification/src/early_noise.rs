//! The EarlyNoise frame: `[5-byte magic][u32 BE length][JSON]`.
//!
//! The server writes it into the encrypted channel right after the handshake.
//! Its nine-byte header is the size of an HTTP/2 frame header, so a client can
//! read nine bytes and tell the frame from the HTTP/2 preface.

use vstd::prelude::*;
use crate::tailcfg::{early_noise_magic, EARLY_NOISE_MAGIC};

verus! {

/// The four big-endian bytes of a 32-bit number.
pub open spec fn be32_bytes(n: u32) -> Seq<u8> {
    seq![
        (n / 0x1000000) as u8,
        ((n / 0x10000) % 0x100) as u8,
        ((n / 0x100) % 0x100) as u8,
        (n % 0x100) as u8,
    ]
}

/// The number four big-endian bytes denote.
pub open spec fn be32_value(b: Seq<u8>) -> int {
    ((b[0] as int * 0x100 + b[1] as int) * 0x100 + b[2] as int) * 0x100 + b[3] as int
}

/// The EarlyNoise frame around an encoded JSON body. The length field is the
/// body's length taken modulo 2^32, as a 32-bit cast gives it.
pub open spec fn early_noise_frame_spec(json: Seq<u8>) -> Seq<u8> {
    early_noise_magic() + be32_bytes(json.len() as u32) + json
}

/// Writes the EarlyNoise frame around an encoded `EarlyNoise` JSON body to
/// the end of `stream`.
pub fn write_early_noise(stream: &mut Vec<u8>, json: &[u8])
    ensures
        final(stream)@ == old(stream)@ + early_noise_frame_spec(json@),
{
    let len: u32 = json.len() as u32;
    let ghost start = stream@;
    let mut i: usize = 0;
    while i < 5
        invariant
            i <= 5,
            stream@ == start + early_noise_magic().take(i as int),
        decreases 5 - i,
    {
        stream.push(EARLY_NOISE_MAGIC[i]);
        i = i + 1;
        assert(stream@ =~= start + early_noise_magic().take(i as int));
    }
    assert(early_noise_magic().take(5) =~= early_noise_magic());
    stream.push((len / 0x1000000) as u8);
    stream.push(((len / 0x10000) % 0x100) as u8);
    stream.push(((len / 0x100) % 0x100) as u8);
    stream.push((len % 0x100) as u8);
    assert(stream@ =~= start + early_noise_magic() + be32_bytes(len));
    let mut j: usize = 0;
    while j < json.len()
        invariant
            j <= json@.len(),
            len == json@.len() as u32,
            stream@ == start + early_noise_magic() + be32_bytes(len) + json@.take(j as int),
        decreases json@.len() - j,
    {
        stream.push(json[j]);
        j = j + 1;
        assert(stream@ =~= start + early_noise_magic() + be32_bytes(len) + json@.take(j as int));
    }
    assert(json@.take(json@.len() as int) =~= json@);
    assert(stream@ =~= start + early_noise_frame_spec(json@));
}

/// A reader of the frame finds the magic in the first five bytes, the body's
/// length in the next four, and the body after them.
pub proof fn lemma_early_noise_frame_reads_back(json: Seq<u8>)
    requires
        json.len() <= u32::MAX,
    ensures
        early_noise_frame_spec(json).take(5) == early_noise_magic(),
        be32_value(early_noise_frame_spec(json).subrange(5, 9)) == json.len(),
        early_noise_frame_spec(json).skip(9) == json,
{
    let frame = early_noise_frame_spec(json);
    let n = json.len() as u32;
    assert(n == json.len());
    assert(frame.take(5) =~= early_noise_magic());
    assert(frame.skip(9) =~= json);
    let h = frame.subrange(5, 9);
    assert(h =~= be32_bytes(n));
    assert(be32_value(be32_bytes(n)) == n) by {
        assert(n == (n / 0x1000000) * 0x1000000 + ((n / 0x10000) % 0x100) * 0x10000
            + ((n / 0x100) % 0x100) * 0x100 + n % 0x100) by (nonlinear_arith);
    }
}

} // verus!
