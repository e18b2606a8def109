//! Fixed-width big-endian integers and variable-length lengths, as they appear in signed and
//! hashed byte strings.

use vstd::prelude::*;

verus! {

/// The two big-endian bytes of a `u16`.
pub open spec fn u16_be(x: u16) -> Seq<u8> {
    seq![(x >> 8u16) as u8, (x & 0xffu16) as u8]
}

/// The four big-endian bytes of a `u32`.
pub open spec fn u32_be(x: u32) -> Seq<u8> {
    seq![
        (x >> 24u32) as u8,
        ((x >> 16u32) & 0xffu32) as u8,
        ((x >> 8u32) & 0xffu32) as u8,
        (x & 0xffu32) as u8,
    ]
}

/// The eight big-endian bytes of a `u64`.
pub open spec fn u64_be(x: u64) -> Seq<u8> {
    u32_be((x >> 32u64) as u32) + u32_be((x & 0xffff_ffffu64) as u32)
}

/// The unsigned LEB128 encoding of a length: seven bits per byte, low bits first, the high bit
/// set on every byte but the last.
pub open spec fn varint(n: nat) -> Seq<u8>
    decreases n,
{
    if n < 128 {
        seq![n as u8]
    } else {
        seq![(n % 128 + 128) as u8] + varint(n / 128)
    }
}

/// Appends the big-endian bytes of a `u16`.
pub fn push_u16_be(out: &mut Vec<u8>, x: u16)
    ensures
        final(out)@ == old(out)@ + u16_be(x),
{
    out.push((x >> 8u16) as u8);
    out.push((x & 0xffu16) as u8);
    assert(final(out)@ =~= old(out)@ + u16_be(x));
}

/// Appends the big-endian bytes of a `u32`.
pub fn push_u32_be(out: &mut Vec<u8>, x: u32)
    ensures
        final(out)@ == old(out)@ + u32_be(x),
{
    out.push((x >> 24u32) as u8);
    out.push(((x >> 16u32) & 0xffu32) as u8);
    out.push(((x >> 8u32) & 0xffu32) as u8);
    out.push((x & 0xffu32) as u8);
    assert(final(out)@ =~= old(out)@ + u32_be(x));
}

/// Appends the big-endian bytes of a `u64`.
pub fn push_u64_be(out: &mut Vec<u8>, x: u64)
    ensures
        final(out)@ == old(out)@ + u64_be(x),
{
    let ghost start = out@;
    push_u32_be(out, (x >> 32u64) as u32);
    push_u32_be(out, (x & 0xffff_ffffu64) as u32);
    assert(out@ =~= start + u64_be(x));
}

/// Appends the LEB128 encoding of a length.
pub fn push_varint(out: &mut Vec<u8>, n: usize)
    ensures
        final(out)@ == old(out)@ + varint(n as nat),
{
    let ghost start = out@;
    let mut rest: usize = n;
    while rest >= 128
        invariant
            out@ + varint(rest as nat) == start + varint(n as nat),
        decreases rest,
    {
        let ghost before = out@;
        out.push((rest % 128 + 128) as u8);
        assert(varint(rest as nat) == seq![(rest % 128 + 128) as u8] + varint((rest / 128) as nat));
        assert(out@ + varint((rest / 128) as nat) =~= before + varint(rest as nat));
        rest = rest / 128;
    }
    out.push(rest as u8);
    assert(out@ =~= start + varint(n as nat));
}

/// Appends a byte string.
pub fn push_bytes(out: &mut Vec<u8>, bytes: &[u8])
    ensures
        final(out)@ == old(out)@ + bytes@,
{
    let ghost start = out@;
    let mut i: usize = 0;
    while i < bytes.len()
        invariant
            0 <= i <= bytes@.len(),
            out@ == start + bytes@.subrange(0, i as int),
        decreases bytes@.len() - i,
    {
        out.push(bytes[i]);
        i += 1;
        assert(out@ =~= start + bytes@.subrange(0, i as int));
    }
    assert(bytes@.subrange(0, bytes@.len() as int) =~= bytes@);
}

/// Reads `N` bytes at `pos`.
pub fn read_array<const N: usize>(bytes: &[u8], pos: usize) -> (r: [u8; N])
    requires
        pos + N <= bytes@.len(),
    ensures
        r@ == bytes@.subrange(pos as int, pos + N),
{
    let mut out = [0u8; N];
    let len = bytes.len();
    let mut i: usize = 0;
    while i < N
        invariant
            len == bytes@.len(),
            0 <= i <= N,
            pos + N <= bytes@.len(),
            out@.len() == N,
            forall|j: int| 0 <= j < i ==> out@[j] == bytes@[pos + j],
        decreases N - i,
    {
        out[i] = bytes[pos + i];
        i += 1;
    }
    assert(out@ =~= bytes@.subrange(pos as int, pos + N));
    out
}

/// The four little-endian bytes of a `u32`.
pub open spec fn u32_le(x: u32) -> Seq<u8> {
    seq![
        (x & 0xffu32) as u8,
        ((x >> 8u32) & 0xffu32) as u8,
        ((x >> 16u32) & 0xffu32) as u8,
        (x >> 24u32) as u8,
    ]
}

/// The eight little-endian bytes of a `u64`.
pub open spec fn u64_le(x: u64) -> Seq<u8> {
    u32_le((x & 0xffff_ffffu64) as u32) + u32_le((x >> 32u64) as u32)
}

/// The `u32` whose little-endian bytes stand at `pos`.
pub open spec fn le32_at(b: Seq<u8>, pos: int) -> u32 {
    (b[pos] as u32) | ((b[pos + 1] as u32) << 8u32) | ((b[pos + 2] as u32) << 16u32) | ((b[pos
        + 3] as u32) << 24u32)
}

/// The `u64` whose little-endian bytes stand at `pos`.
pub open spec fn le64_at(b: Seq<u8>, pos: int) -> u64 {
    (le32_at(b, pos) as u64) | ((le32_at(b, pos + 4) as u64) << 32u64)
}

/// Reading back the little-endian bytes of a `u32` gives the `u32`.
pub proof fn lemma_le32_round_trip(b: Seq<u8>, pos: int, x: u32)
    requires
        0 <= pos,
        pos + 4 <= b.len(),
        b.subrange(pos, pos + 4) == u32_le(x),
    ensures
        le32_at(b, pos) == x,
{
    assert(b[pos] == u32_le(x)[0]);
    assert(b[pos + 1] == u32_le(x)[1]);
    assert(b[pos + 2] == u32_le(x)[2]);
    assert(b[pos + 3] == u32_le(x)[3]);
    let (b0, b1, b2, b3) = (b[pos], b[pos + 1], b[pos + 2], b[pos + 3]);
    assert(((b0 as u32) | ((b1 as u32) << 8u32) | ((b2 as u32) << 16u32) | ((b3 as u32) << 24u32))
        == x) by (bit_vector)
        requires
            b0 == (x & 0xffu32) as u8,
            b1 == ((x >> 8u32) & 0xffu32) as u8,
            b2 == ((x >> 16u32) & 0xffu32) as u8,
            b3 == (x >> 24u32) as u8,
    ;
}

/// Reading back the little-endian bytes of a `u64` gives the `u64`.
pub proof fn lemma_le64_round_trip(b: Seq<u8>, pos: int, x: u64)
    requires
        0 <= pos,
        pos + 8 <= b.len(),
        b.subrange(pos, pos + 8) == u64_le(x),
    ensures
        le64_at(b, pos) == x,
{
    let lo = (x & 0xffff_ffffu64) as u32;
    let hi = (x >> 32u64) as u32;
    assert(b.subrange(pos, pos + 4) =~= u64_le(x).subrange(0, 4));
    assert(u64_le(x).subrange(0, 4) =~= u32_le(lo));
    assert(b.subrange(pos + 4, pos + 8) =~= u64_le(x).subrange(4, 8));
    assert(u64_le(x).subrange(4, 8) =~= u32_le(hi));
    lemma_le32_round_trip(b, pos, lo);
    lemma_le32_round_trip(b, pos + 4, hi);
    assert(((lo as u64) | ((hi as u64) << 32u64)) == x) by (bit_vector)
        requires
            lo == (x & 0xffff_ffffu64) as u32,
            hi == (x >> 32u64) as u32,
    ;
}

/// Appends the little-endian bytes of a `u32`.
pub fn push_u32_le(out: &mut Vec<u8>, x: u32)
    ensures
        final(out)@ == old(out)@ + u32_le(x),
{
    out.push((x & 0xffu32) as u8);
    out.push(((x >> 8u32) & 0xffu32) as u8);
    out.push(((x >> 16u32) & 0xffu32) as u8);
    out.push((x >> 24u32) as u8);
    assert(final(out)@ =~= old(out)@ + u32_le(x));
}

/// Appends the little-endian bytes of a `u64`.
pub fn push_u64_le(out: &mut Vec<u8>, x: u64)
    ensures
        final(out)@ == old(out)@ + u64_le(x),
{
    let ghost start = out@;
    push_u32_le(out, (x & 0xffff_ffffu64) as u32);
    push_u32_le(out, (x >> 32u64) as u32);
    assert(out@ =~= start + u64_le(x));
}

/// Reads a little-endian `u32` at `pos`.
pub fn read_u32_le(bytes: &[u8], pos: usize) -> (r: u32)
    requires
        pos + 4 <= bytes@.len(),
    ensures
        r == le32_at(bytes@, pos as int),
{
    (bytes[pos] as u32) | ((bytes[pos + 1] as u32) << 8u32) | ((bytes[pos + 2] as u32) << 16u32) | ((
    bytes[pos + 3] as u32) << 24u32)
}

/// Reads a little-endian `u64` at `pos`.
pub fn read_u64_le(bytes: &[u8], pos: usize) -> (r: u64)
    requires
        pos + 8 <= bytes@.len(),
    ensures
        r == le64_at(bytes@, pos as int),
{
    let len = bytes.len();
    assert(pos + 4 <= len);
    let lo = read_u32_le(bytes, pos) as u64;
    let hi = read_u32_le(bytes, pos + 4) as u64;
    lo | (hi << 32u64)
}

/// Copies `len` bytes at `pos`.
pub fn read_vec(bytes: &[u8], pos: usize, len: usize) -> (r: Vec<u8>)
    requires
        pos + len <= bytes@.len(),
    ensures
        r@ == bytes@.subrange(pos as int, pos + len),
{
    let mut out: Vec<u8> = Vec::new();
    let mut i: usize = 0;
    let n = bytes.len();
    while i < len
        invariant
            n == bytes@.len(),
            pos + len <= n,
            0 <= i <= len,
            out@ == bytes@.subrange(pos as int, pos + i),
        decreases len - i,
    {
        out.push(bytes[pos + i]);
        i += 1;
        assert(out@ =~= bytes@.subrange(pos as int, pos + i));
    }
    out
}

} // verus!
