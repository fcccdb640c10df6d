//! Fixed-width integer encodings used on the USB/IP wire.
use vstd::prelude::*;

verus! {

/// Big-endian (network order) encoding of a 16-bit value.
pub open spec fn be16(v: u16) -> Seq<u8> {
    seq![(v >> 8u16) as u8, v as u8]
}

/// Big-endian (network order) encoding of a 32-bit value.
pub open spec fn be32(v: u32) -> Seq<u8> {
    seq![(v >> 24u32) as u8, (v >> 16u32) as u8, (v >> 8u32) as u8, v as u8]
}

/// Little-endian encoding of a 16-bit value.
pub open spec fn le16(v: u16) -> Seq<u8> {
    seq![v as u8, (v >> 8u16) as u8]
}

/// Little-endian encoding of a 32-bit value.
pub open spec fn le32(v: u32) -> Seq<u8> {
    seq![v as u8, (v >> 8u32) as u8, (v >> 16u32) as u8, (v >> 24u32) as u8]
}

/// A run of `n` zero bytes.
pub open spec fn zeros(n: nat) -> Seq<u8> {
    Seq::new(n, |i: int| 0u8)
}

/// The big-endian bytes of a value, most significant first, add back up to it.
pub proof fn law_be_values(a: u16, b: u32)
    ensures
        be16(a).len() == 2,
        be16(a)[0] * 0x100 + be16(a)[1] == a,
        be32(b).len() == 4,
        be32(b)[0] * 0x1000000 + be32(b)[1] * 0x10000 + be32(b)[2] * 0x100 + be32(b)[3] == b,
{
    let (a0, a1) = ((a >> 8u16) as u8, a as u8);
    assert(a0 as u32 * 0x100 + a1 as u32 == a as u32) by (bit_vector)
        requires
            a0 == (a >> 8u16) as u8,
            a1 == a as u8,
    ;
    let (b0, b1, b2, b3) = ((b >> 24u32) as u8, (b >> 16u32) as u8, (b >> 8u32) as u8, b as u8);
    assert(b0 as u64 * 0x1000000 + b1 as u64 * 0x10000 + b2 as u64 * 0x100 + b3 as u64 == b as u64)
        by (bit_vector)
        requires
            b0 == (b >> 24u32) as u8,
            b1 == (b >> 16u32) as u8,
            b2 == (b >> 8u32) as u8,
            b3 == b as u8,
    ;
}

/// The little-endian bytes of a value, least significant first, add back up
/// to it.
pub proof fn law_le_values(a: u16, b: u32)
    ensures
        le16(a).len() == 2,
        le16(a)[0] + le16(a)[1] * 0x100 == a,
        le32(b).len() == 4,
        le32(b)[0] + le32(b)[1] * 0x100 + le32(b)[2] * 0x10000 + le32(b)[3] * 0x1000000 == b,
{
    let (a0, a1) = (a as u8, (a >> 8u16) as u8);
    assert(a0 as u32 + a1 as u32 * 0x100 == a as u32) by (bit_vector)
        requires
            a0 == a as u8,
            a1 == (a >> 8u16) as u8,
    ;
    let (b0, b1, b2, b3) = (b as u8, (b >> 8u32) as u8, (b >> 16u32) as u8, (b >> 24u32) as u8);
    assert(b0 as u64 + b1 as u64 * 0x100 + b2 as u64 * 0x10000 + b3 as u64 * 0x1000000 == b as u64)
        by (bit_vector)
        requires
            b0 == b as u8,
            b1 == (b >> 8u32) as u8,
            b2 == (b >> 16u32) as u8,
            b3 == (b >> 24u32) as u8,
    ;
}

/// The big-endian encoding determines the value.
pub proof fn lemma_be16_injective(a: u16, b: u16)
    requires
        be16(a) == be16(b),
    ensures
        a == b,
{
    assert(be16(a)[0] == be16(b)[0] && be16(a)[1] == be16(b)[1]);
    let (a0, a1, b0, b1) = ((a >> 8u16) as u8, a as u8, (b >> 8u16) as u8, b as u8);
    assert(a == b) by (bit_vector)
        requires
            a0 == (a >> 8u16) as u8,
            a1 == a as u8,
            b0 == (b >> 8u16) as u8,
            b1 == b as u8,
            a0 == b0,
            a1 == b1,
    ;
}

/// The big-endian encoding determines the value.
pub proof fn lemma_be32_injective(a: u32, b: u32)
    requires
        be32(a) == be32(b),
    ensures
        a == b,
{
    assert(be32(a)[0] == be32(b)[0] && be32(a)[1] == be32(b)[1]);
    assert(be32(a)[2] == be32(b)[2] && be32(a)[3] == be32(b)[3]);
    let (a0, a1, a2, a3) = ((a >> 24u32) as u8, (a >> 16u32) as u8, (a >> 8u32) as u8, a as u8);
    let (b0, b1, b2, b3) = ((b >> 24u32) as u8, (b >> 16u32) as u8, (b >> 8u32) as u8, b as u8);
    assert(a == b) by (bit_vector)
        requires
            a0 == (a >> 24u32) as u8,
            a1 == (a >> 16u32) as u8,
            a2 == (a >> 8u32) as u8,
            a3 == a as u8,
            b0 == (b >> 24u32) as u8,
            b1 == (b >> 16u32) as u8,
            b2 == (b >> 8u32) as u8,
            b3 == b as u8,
            a0 == b0,
            a1 == b1,
            a2 == b2,
            a3 == b3,
    ;
}

/// Appends the big-endian encoding of `v` to `out`.
pub fn push_be16(out: &mut Vec<u8>, v: u16)
    ensures
        final(out)@ == old(out)@ + be16(v),
{
    out.push((v >> 8u16) as u8);
    out.push(v as u8);
    assert(final(out)@ =~= old(out)@ + be16(v));
}

/// Appends the big-endian encoding of `v` to `out`.
pub fn push_be32(out: &mut Vec<u8>, v: u32)
    ensures
        final(out)@ == old(out)@ + be32(v),
{
    out.push((v >> 24u32) as u8);
    out.push((v >> 16u32) as u8);
    out.push((v >> 8u32) as u8);
    out.push(v as u8);
    assert(final(out)@ =~= old(out)@ + be32(v));
}

/// Appends the little-endian encoding of `v` to `out`.
pub fn push_le32(out: &mut Vec<u8>, v: u32)
    ensures
        final(out)@ == old(out)@ + le32(v),
{
    out.push(v as u8);
    out.push((v >> 8u32) as u8);
    out.push((v >> 16u32) as u8);
    out.push((v >> 24u32) as u8);
    assert(final(out)@ =~= old(out)@ + le32(v));
}

/// Appends `n` zero bytes to `out`.
pub fn push_zeros(out: &mut Vec<u8>, n: usize)
    ensures
        final(out)@ == old(out)@ + zeros(n as nat),
{
    let ghost start = out@;
    let mut i: usize = 0;
    while i < n
        invariant
            i <= n,
            out@ == start + zeros(i as nat),
        decreases n - i,
    {
        out.push(0u8);
        i = i + 1;
        assert(out@ =~= start + zeros(i as nat));
    }
}

/// Appends all of `src` to `out`.
pub fn push_slice(out: &mut Vec<u8>, src: &[u8])
    ensures
        final(out)@ == old(out)@ + src@,
{
    let ghost start = out@;
    let mut i: usize = 0;
    while i < src.len()
        invariant
            i <= src@.len(),
            out@ == start + src@.subrange(0, i as int),
        decreases src@.len() - i,
    {
        out.push(src[i]);
        i = i + 1;
        assert(out@ =~= start + src@.subrange(0, i as int));
    }
    assert(src@.subrange(0, src@.len() as int) =~= src@);
}

/// Reads a big-endian `u16` from `bytes` at offset `off`.
pub fn get_u16_be(bytes: &[u8], off: usize) -> (r: u16)
    requires
        off + 2 <= bytes@.len(),
    ensures
        be16(r) == bytes@.subrange(off as int, off + 2),
{
    let b0 = bytes[off];
    let b1 = bytes[off + 1];
    let r = ((b0 as u16) << 8u16) | (b1 as u16);
    assert(((r >> 8u16) as u8 == b0) && (r as u8 == b1)) by (bit_vector)
        requires
            r == ((b0 as u16) << 8u16) | (b1 as u16),
    ;
    assert(be16(r) =~= bytes@.subrange(off as int, off + 2));
    r
}

/// Reads a little-endian `u16` from `bytes` at offset `off`.
pub fn get_u16_le(bytes: &[u8], off: usize) -> (r: u16)
    requires
        off + 2 <= bytes@.len(),
    ensures
        le16(r) == bytes@.subrange(off as int, off + 2),
{
    let b0 = bytes[off];
    let b1 = bytes[off + 1];
    let r = ((b1 as u16) << 8u16) | (b0 as u16);
    assert(((r >> 8u16) as u8 == b1) && (r as u8 == b0)) by (bit_vector)
        requires
            r == ((b1 as u16) << 8u16) | (b0 as u16),
    ;
    assert(le16(r) =~= bytes@.subrange(off as int, off + 2));
    r
}

/// Reads a big-endian `u32` from `bytes` at offset `off`.
pub fn get_u32_be(bytes: &[u8], off: usize) -> (r: u32)
    requires
        off + 4 <= bytes@.len(),
    ensures
        be32(r) == bytes@.subrange(off as int, off + 4),
{
    let b0 = bytes[off];
    let b1 = bytes[off + 1];
    let b2 = bytes[off + 2];
    let b3 = bytes[off + 3];
    let r = ((b0 as u32) << 24u32) | ((b1 as u32) << 16u32) | ((b2 as u32) << 8u32) | (b3 as u32);
    assert(((r >> 24u32) as u8 == b0) && ((r >> 16u32) as u8 == b1) && ((r >> 8u32) as u8 == b2)
        && (r as u8 == b3)) by (bit_vector)
        requires
            r == ((b0 as u32) << 24u32) | ((b1 as u32) << 16u32) | ((b2 as u32) << 8u32) | (
            b3 as u32),
    ;
    assert(be32(r) =~= bytes@.subrange(off as int, off + 4));
    r
}

} // verus!
