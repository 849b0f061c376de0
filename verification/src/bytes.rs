//! Big-endian byte primitives and 4-byte alignment arithmetic, the
//! foundation of the Diameter wire format.

use vstd::prelude::*;

verus! {

/// The two bytes of `v`, most significant first.
pub open spec fn be16_bytes(v: u16) -> Seq<u8> {
    seq![((v >> 8) & 0xFF) as u8, (v & 0xFF) as u8]
}

/// The low 24 bits of `v` as three bytes, most significant first.
pub open spec fn be24_bytes(v: u32) -> Seq<u8> {
    seq![((v >> 16) & 0xFF) as u8, ((v >> 8) & 0xFF) as u8, (v & 0xFF) as u8]
}

/// The four bytes of `v`, most significant first.
pub open spec fn be32_bytes(v: u32) -> Seq<u8> {
    seq![
        ((v >> 24) & 0xFF) as u8,
        ((v >> 16) & 0xFF) as u8,
        ((v >> 8) & 0xFF) as u8,
        (v & 0xFF) as u8,
    ]
}

/// The eight bytes of `v`, most significant first.
pub open spec fn be64_bytes(v: u64) -> Seq<u8> {
    seq![
        ((v >> 56) & 0xFF) as u8,
        ((v >> 48) & 0xFF) as u8,
        ((v >> 40) & 0xFF) as u8,
        ((v >> 32) & 0xFF) as u8,
        ((v >> 24) & 0xFF) as u8,
        ((v >> 16) & 0xFF) as u8,
        ((v >> 8) & 0xFF) as u8,
        (v & 0xFF) as u8,
    ]
}

/// The 24-bit big-endian integer with bytes `b0 b1 b2`.
pub open spec fn u24_of(b0: u8, b1: u8, b2: u8) -> u32 {
    ((b0 as u32) << 16) | ((b1 as u32) << 8) | (b2 as u32)
}

/// The 32-bit big-endian integer with bytes `b0 b1 b2 b3`.
pub open spec fn u32_of(b0: u8, b1: u8, b2: u8, b3: u8) -> u32 {
    ((b0 as u32) << 24) | ((b1 as u32) << 16) | ((b2 as u32) << 8) | (b3 as u32)
}

/// A 24-bit big-endian integer never exceeds 2^24 - 1.
pub proof fn lemma_u24_bound(b0: u8, b1: u8, b2: u8)
    ensures
        u24_of(b0, b1, b2) <= 0xFFFFFF,
{
    assert(((b0 as u32) << 16) | ((b1 as u32) << 8) | (b2 as u32) <= 0xFFFFFF) by (bit_vector);
}

/// Writing a 24-bit value big-endian and reading it back is the identity.
pub proof fn lemma_u24_roundtrip(v: u32)
    requires
        v <= 0xFFFFFF,
    ensures
        u24_of(be24_bytes(v)[0], be24_bytes(v)[1], be24_bytes(v)[2]) == v,
{
    assert((((((v >> 16) & 0xFF) as u8) as u32) << 16) | (((((v >> 8) & 0xFF) as u8) as u32) << 8)
        | (((v & 0xFF) as u8) as u32) == v) by (bit_vector)
        requires
            v <= 0xFFFFFF,
    ;
}

/// Writing a 32-bit value big-endian and reading it back is the identity.
pub proof fn lemma_u32_roundtrip(v: u32)
    ensures
        u32_of(be32_bytes(v)[0], be32_bytes(v)[1], be32_bytes(v)[2], be32_bytes(v)[3]) == v,
{
    assert((((((v >> 24) & 0xFF) as u8) as u32) << 24) | (((((v >> 16) & 0xFF) as u8) as u32) << 16)
        | (((((v >> 8) & 0xFF) as u8) as u32) << 8) | (((v & 0xFF) as u8) as u32) == v)
        by (bit_vector);
}

/// `n` zero bytes.
pub open spec fn zeros(n: int) -> Seq<u8> {
    Seq::new(n as nat, |i: int| 0u8)
}

/// How many zero bytes pad a record of `n` bytes to the next 4-byte boundary.
pub open spec fn pad4(n: int) -> int {
    if n % 4 == 0 {
        0
    } else {
        4 - n % 4
    }
}

/// `n` rounded up to a multiple of 4.
pub open spec fn round_up_4(n: int) -> int {
    n + pad4(n)
}

/// Reads the 24-bit big-endian integer at `pos`.
pub fn read_u24(s: &[u8], pos: usize) -> (r: u32)
    requires
        pos + 3 <= s@.len(),
    ensures
        r == u24_of(s@[pos as int], s@[pos as int + 1], s@[pos as int + 2]),
{
    ((s[pos] as u32) << 16) | ((s[pos + 1] as u32) << 8) | (s[pos + 2] as u32)
}

/// Reads the 32-bit big-endian integer at `pos`.
pub fn read_u32(s: &[u8], pos: usize) -> (r: u32)
    requires
        pos + 4 <= s@.len(),
    ensures
        r == u32_of(s@[pos as int], s@[pos as int + 1], s@[pos as int + 2], s@[pos as int + 3]),
{
    ((s[pos] as u32) << 24) | ((s[pos + 1] as u32) << 16) | ((s[pos + 2] as u32) << 8) | (s[pos
        + 3] as u32)
}

/// Appends the two big-endian bytes of `v`.
pub fn push_be16(buffer: &mut Vec<u8>, v: u16)
    ensures
        final(buffer)@ == old(buffer)@ + be16_bytes(v),
{
    proof {
        assert((v >> 8) & 0xFF < 256 && v & 0xFF < 256) by (bit_vector);
    }
    buffer.push(((v >> 8) & 0xFF) as u8);
    buffer.push((v & 0xFF) as u8);
    assert(buffer@ =~= old(buffer)@ + be16_bytes(v));
}

/// Appends the three big-endian bytes of `v`'s low 24 bits.
pub fn push_be24(buffer: &mut Vec<u8>, v: u32)
    ensures
        final(buffer)@ == old(buffer)@ + be24_bytes(v),
{
    proof {
        assert((v >> 16) & 0xFF < 256 && (v >> 8) & 0xFF < 256 && v & 0xFF < 256) by (bit_vector);
    }
    buffer.push(((v >> 16) & 0xFF) as u8);
    buffer.push(((v >> 8) & 0xFF) as u8);
    buffer.push((v & 0xFF) as u8);
    assert(buffer@ =~= old(buffer)@ + be24_bytes(v));
}

/// Appends the four big-endian bytes of `v`.
pub fn push_be32(buffer: &mut Vec<u8>, v: u32)
    ensures
        final(buffer)@ == old(buffer)@ + be32_bytes(v),
{
    proof {
        assert((v >> 24) & 0xFF < 256 && (v >> 16) & 0xFF < 256 && (v >> 8) & 0xFF < 256 && v & 0xFF
            < 256) by (bit_vector);
    }
    buffer.push(((v >> 24) & 0xFF) as u8);
    buffer.push(((v >> 16) & 0xFF) as u8);
    buffer.push(((v >> 8) & 0xFF) as u8);
    buffer.push((v & 0xFF) as u8);
    assert(buffer@ =~= old(buffer)@ + be32_bytes(v));
}

/// Appends the eight big-endian bytes of `v`.
pub fn push_be64(buffer: &mut Vec<u8>, v: u64)
    ensures
        final(buffer)@ == old(buffer)@ + be64_bytes(v),
{
    proof {
        assert((v >> 56) & 0xFF < 256 && (v >> 48) & 0xFF < 256 && (v >> 40) & 0xFF < 256 && (v
            >> 32) & 0xFF < 256 && (v >> 24) & 0xFF < 256 && (v >> 16) & 0xFF < 256 && (v >> 8)
            & 0xFF < 256 && v & 0xFF < 256) by (bit_vector);
    }
    buffer.push(((v >> 56) & 0xFF) as u8);
    buffer.push(((v >> 48) & 0xFF) as u8);
    buffer.push(((v >> 40) & 0xFF) as u8);
    buffer.push(((v >> 32) & 0xFF) as u8);
    buffer.push(((v >> 24) & 0xFF) as u8);
    buffer.push(((v >> 16) & 0xFF) as u8);
    buffer.push(((v >> 8) & 0xFF) as u8);
    buffer.push((v & 0xFF) as u8);
    assert(buffer@ =~= old(buffer)@ + be64_bytes(v));
}

/// Overwrites the three bytes at `pos` with `v`'s low 24 bits, big-endian.
pub fn set_be24(buffer: &mut Vec<u8>, pos: usize, v: u32)
    requires
        pos + 3 <= old(buffer)@.len(),
    ensures
        final(buffer)@ == old(buffer)@.subrange(0, pos as int) + be24_bytes(v) + old(
            buffer,
        )@.subrange(pos as int + 3, old(buffer)@.len() as int),
        final(buffer)@.len() == old(buffer)@.len(),
{
    proof {
        assert((v >> 16) & 0xFF < 256 && (v >> 8) & 0xFF < 256 && v & 0xFF < 256) by (bit_vector);
    }
    let n = buffer.len();
    buffer[pos] = ((v >> 16) & 0xFF) as u8;
    buffer[pos + 1] = ((v >> 8) & 0xFF) as u8;
    buffer[pos + 2] = (v & 0xFF) as u8;
    assert(buffer@ =~= old(buffer)@.subrange(0, pos as int) + be24_bytes(v) + old(buffer)@.subrange(
        pos as int + 3,
        old(buffer)@.len() as int,
    ));
}

/// Appends the bytes of `s`.
pub fn push_bytes(buffer: &mut Vec<u8>, s: &[u8])
    ensures
        final(buffer)@ == old(buffer)@ + s@,
{
    let mut i: usize = 0;
    while i < s.len()
        invariant
            i <= s@.len(),
            buffer@ == old(buffer)@ + s@.subrange(0, i as int),
        decreases s@.len() - i,
    {
        buffer.push(s[i]);
        i = i + 1;
        assert(buffer@ =~= old(buffer)@ + s@.subrange(0, i as int));
    }
    assert(s@.subrange(0, s@.len() as int) =~= s@);
}

/// Appends the bytes of a fixed-size octet array.
pub fn push_octets<const N: usize>(buffer: &mut Vec<u8>, s: &[u8; N])
    ensures
        final(buffer)@ == old(buffer)@ + s@,
{
    let mut i: usize = 0;
    while i < N
        invariant
            i <= N,
            s@.len() == N,
            buffer@ == old(buffer)@ + s@.subrange(0, i as int),
        decreases N - i,
    {
        buffer.push(s[i]);
        i = i + 1;
        assert(buffer@ =~= old(buffer)@ + s@.subrange(0, i as int));
    }
    assert(s@.subrange(0, s@.len() as int) =~= s@);
}

/// Appends zero bytes until the buffer length is a multiple of 4.
pub fn pad_to_4(buffer: &mut Vec<u8>)
    ensures
        final(buffer)@ == old(buffer)@ + zeros(pad4(old(buffer)@.len() as int)),
        final(buffer)@.len() % 4 == 0,
{
    let rem = buffer.len() % 4;
    if rem == 3 {
        buffer.push(0);
        assert(buffer@ =~= old(buffer)@ + zeros(1));
    } else if rem == 2 {
        buffer.push(0);
        buffer.push(0);
        assert(buffer@ =~= old(buffer)@ + zeros(2));
    } else if rem == 1 {
        buffer.push(0);
        buffer.push(0);
        buffer.push(0);
        assert(buffer@ =~= old(buffer)@ + zeros(3));
    } else {
        assert(buffer@ =~= old(buffer)@ + zeros(0));
    }
}

} // verus!
