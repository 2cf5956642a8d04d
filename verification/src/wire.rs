//! Big-endian 64-bit framing primitives used by the crate's byte encodings.

use crate::types::append_bytes;
use vstd::prelude::*;

verus! {

/// The eight big-endian bytes of `x`.
pub open spec fn be64_bytes(x: u64) -> Seq<u8> {
    seq![
        (x >> 56) as u8,
        (x >> 48) as u8,
        (x >> 40) as u8,
        (x >> 32) as u8,
        (x >> 24) as u8,
        (x >> 16) as u8,
        (x >> 8) as u8,
        x as u8,
    ]
}

/// The value read back from eight big-endian bytes.
pub open spec fn be64_value(
    b0: u8,
    b1: u8,
    b2: u8,
    b3: u8,
    b4: u8,
    b5: u8,
    b6: u8,
    b7: u8,
) -> u64 {
    ((b0 as u64) << 56) | ((b1 as u64) << 48) | ((b2 as u64) << 40) | ((b3 as u64) << 32) | ((
    b4 as u64) << 24) | ((b5 as u64) << 16) | ((b6 as u64) << 8) | (b7 as u64)
}

/// Reading the eight bytes of `x` yields `x` again.
pub proof fn lemma_be64_round_trip(x: u64)
    ensures
        be64_value(
            (x >> 56) as u8,
            (x >> 48) as u8,
            (x >> 40) as u8,
            (x >> 32) as u8,
            (x >> 24) as u8,
            (x >> 16) as u8,
            (x >> 8) as u8,
            x as u8,
        ) == x,
{
    assert((((x >> 56) as u8 as u64) << 56) | (((x >> 48) as u8 as u64) << 48) | (((x
        >> 40) as u8 as u64) << 40) | (((x >> 32) as u8 as u64) << 32) | (((x >> 24) as u8 as u64)
        << 24) | (((x >> 16) as u8 as u64) << 16) | (((x >> 8) as u8 as u64) << 8) | (
    x as u8 as u64) == x) by (bit_vector);
}

/// Appends the eight big-endian bytes of `x` to `dst`.
pub fn push_be64(dst: &mut Vec<u8>, x: u64)
    ensures
        final (dst)@ == old(dst)@ + be64_bytes(x),
{
    dst.push((x >> 56) as u8);
    dst.push((x >> 48) as u8);
    dst.push((x >> 40) as u8);
    dst.push((x >> 32) as u8);
    dst.push((x >> 24) as u8);
    dst.push((x >> 16) as u8);
    dst.push((x >> 8) as u8);
    dst.push(x as u8);
    proof {
        assert(dst@ =~= old(dst)@ + be64_bytes(x));
    }
}

/// Reads a big-endian 64-bit value at `pos`.
pub fn read_be64(b: &Vec<u8>, pos: usize) -> (r: u64)
    requires
        pos + 8 <= b.len(),
    ensures
        r == be64_value(
            b@[pos as int],
            b@[pos as int + 1],
            b@[pos as int + 2],
            b@[pos as int + 3],
            b@[pos as int + 4],
            b@[pos as int + 5],
            b@[pos as int + 6],
            b@[pos as int + 7],
        ),
{
    ((b[pos] as u64) << 56) | ((b[pos + 1] as u64) << 48) | ((b[pos + 2] as u64) << 40) | ((b[pos
        + 3] as u64) << 32) | ((b[pos + 4] as u64) << 24) | ((b[pos + 5] as u64) << 16) | ((b[pos
        + 6] as u64) << 8) | (b[pos + 7] as u64)
}

/// One framed field: its length, then its bytes.
pub open spec fn frame_bytes(m: Seq<u8>) -> Seq<u8> {
    be64_bytes(m.len() as u64) + m
}

/// Appends a framed field to `dst`.
pub fn push_framed(dst: &mut Vec<u8>, m: &Vec<u8>)
    ensures
        final (dst)@ == old(dst)@ + frame_bytes(m@),
{
    push_be64(dst, m.len() as u64);
    append_bytes(dst, m);
    proof {
        assert(dst@ =~= old(dst)@ + frame_bytes(m@));
    }
}

} // verus!
