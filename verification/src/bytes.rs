//! Big-endian integers read from byte buffers.

use byteorder::ByteOrder;
use vstd::prelude::*;

verus! {

/// The unsigned value of the first four bytes of `s`, most significant byte first.
pub open spec fn be_u32(s: Seq<u8>) -> int
    recommends
        s.len() >= 4,
{
    s[0] as int * 0x100_0000 + s[1] as int * 0x1_0000 + s[2] as int * 0x100 + s[3] as int
}

/// The four bytes of `n`, most significant first.
pub open spec fn be_bytes(n: u32) -> Seq<u8> {
    seq![(n >> 24u32) as u8, (n >> 16u32) as u8, (n >> 8u32) as u8, n as u8]
}

/// Reading back the bytes of `n` gives `n`.
pub proof fn lemma_be_u32_of_be_bytes(n: u32)
    ensures
        be_u32(be_bytes(n)) == n,
{
    let b0 = (n >> 24u32) as u8;
    let b1 = (n >> 16u32) as u8;
    let b2 = (n >> 8u32) as u8;
    let b3 = n as u8;
    assert(b0 as int * 0x100_0000 + b1 as int * 0x1_0000 + b2 as int * 0x100 + b3 as int == n)
        by (bit_vector)
        requires
            b0 == (n >> 24u32) as u8,
            b1 == (n >> 16u32) as u8,
            b2 == (n >> 8u32) as u8,
            b3 == n as u8,
    ;
}

/// Four bytes are the bytes of the number they denote.
pub proof fn lemma_be_bytes_of_be_u32(s: Seq<u8>)
    requires
        s.len() == 4,
    ensures
        0 <= be_u32(s) <= u32::MAX,
        be_bytes(be_u32(s) as u32) == s,
{
    let b0 = s[0];
    let b1 = s[1];
    let b2 = s[2];
    let b3 = s[3];
    assert(b0 as int * 0x100_0000 + b1 as int * 0x1_0000 + b2 as int * 0x100 + b3 as int
        <= 0xffff_ffff) by (nonlinear_arith)
        requires
            b0 <= 255,
            b1 <= 255,
            b2 <= 255,
            b3 <= 255,
    ;
    let v: u32 = (b0 as int * 0x100_0000 + b1 as int * 0x1_0000 + b2 as int * 0x100
        + b3 as int) as u32;
    assert(v as int == be_u32(s));
    assert(v == ((b0 as u32) << 24u32) | ((b1 as u32) << 16u32) | ((b2 as u32) << 8u32) | (
    b3 as u32)) by (bit_vector)
        requires
            v as int == b0 as int * 0x100_0000 + b1 as int * 0x1_0000 + b2 as int * 0x100
                + b3 as int,
    ;
    assert((v >> 24u32) as u8 == b0 && (v >> 16u32) as u8 == b1 && (v >> 8u32) as u8 == b2
        && v as u8 == b3) by (bit_vector)
        requires
            v == ((b0 as u32) << 24u32) | ((b1 as u32) << 16u32) | ((b2 as u32) << 8u32) | (
            b3 as u32),
    ;
    assert(be_bytes(v) =~= s);
}

/// Calls `byteorder::BigEndian::read_u32`. In byteorder 1.5 its body is
/// `u32::from_be_bytes(buf[..4].try_into().unwrap())`: it panics on fewer than four bytes,
/// and otherwise returns the first four bytes read most significant first, ignoring the rest.
#[verifier::external_body]
pub(crate) fn read_u32_be(buf: &[u8]) -> (r: u32)
    requires
        buf@.len() >= 4,
    ensures
        r as int == be_u32(buf@),
{
    byteorder::BigEndian::read_u32(buf)
}

} // verus!
