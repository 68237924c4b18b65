//! Fixed-width big-endian encodings of integers.

use vstd::prelude::*;

verus! {

/// The four bytes of `x`, most significant first.
pub open spec fn be_bytes_u32(x: u32) -> Seq<u8> {
    seq![
        (x / 0x100_0000) as u8,
        (x / 0x1_0000 % 0x100) as u8,
        (x / 0x100 % 0x100) as u8,
        (x % 0x100) as u8,
    ]
}

/// The eight bytes of `x`, most significant first.
pub open spec fn be_bytes_u64(x: u64) -> Seq<u8> {
    seq![
        (x / 0x100_0000_0000_0000) as u8,
        (x / 0x1_0000_0000_0000 % 0x100) as u8,
        (x / 0x100_0000_0000 % 0x100) as u8,
        (x / 0x1_0000_0000 % 0x100) as u8,
        (x / 0x100_0000 % 0x100) as u8,
        (x / 0x1_0000 % 0x100) as u8,
        (x / 0x100 % 0x100) as u8,
        (x % 0x100) as u8,
    ]
}

/// The unsigned 32-bit number with the same bits as `y` in two's complement.
pub open spec fn twos_complement_u32(y: i32) -> u32 {
    if y >= 0 {
        y as u32
    } else {
        (y + 0x1_0000_0000) as u32
    }
}

/// Reinterprets a signed 32-bit number as unsigned, bit for bit.
pub fn i32_bits(y: i32) -> (r: u32)
    ensures
        r == twos_complement_u32(y),
{
    if y >= 0 {
        y as u32
    } else {
        (y as i64 + 0x1_0000_0000) as u32
    }
}

/// Appends the four big-endian bytes of `x` to `buf`.
pub fn push_u32_be(buf: &mut Vec<u8>, x: u32)
    ensures
        final(buf)@ == old(buf)@ + be_bytes_u32(x),
{
    buf.push((x / 0x100_0000) as u8);
    buf.push((x / 0x1_0000 % 0x100) as u8);
    buf.push((x / 0x100 % 0x100) as u8);
    buf.push((x % 0x100) as u8);
    assert(buf@ =~= old(buf)@ + be_bytes_u32(x));
}

/// Appends the eight big-endian bytes of `x` to `buf`.
pub fn push_u64_be(buf: &mut Vec<u8>, x: u64)
    ensures
        final(buf)@ == old(buf)@ + be_bytes_u64(x),
{
    buf.push((x / 0x100_0000_0000_0000) as u8);
    buf.push((x / 0x1_0000_0000_0000 % 0x100) as u8);
    buf.push((x / 0x100_0000_0000 % 0x100) as u8);
    buf.push((x / 0x1_0000_0000 % 0x100) as u8);
    buf.push((x / 0x100_0000 % 0x100) as u8);
    buf.push((x / 0x1_0000 % 0x100) as u8);
    buf.push((x / 0x100 % 0x100) as u8);
    buf.push((x % 0x100) as u8);
    assert(buf@ =~= old(buf)@ + be_bytes_u64(x));
}

/// The four-byte encoding keeps distinct numbers distinct.
pub proof fn lemma_be_bytes_u32_injective(x: u32, y: u32)
    requires
        be_bytes_u32(x) == be_bytes_u32(y),
    ensures
        x == y,
{
    let a = be_bytes_u32(x);
    let b = be_bytes_u32(y);
    assert(a[0] == b[0] && a[1] == b[1] && a[2] == b[2] && a[3] == b[3]);
    assert(x / 0x100_0000 == y / 0x100_0000);
    assert(x / 0x1_0000 % 0x100 == y / 0x1_0000 % 0x100);
    assert(x / 0x100 % 0x100 == y / 0x100 % 0x100);
    assert(x % 0x100 == y % 0x100);
    assert(x == y) by (bit_vector)
        requires
            x / 0x100_0000 == y / 0x100_0000,
            x / 0x1_0000 % 0x100 == y / 0x1_0000 % 0x100,
            x / 0x100 % 0x100 == y / 0x100 % 0x100,
            x % 0x100 == y % 0x100,
    ;
}

/// The eight-byte encoding keeps distinct numbers distinct.
pub proof fn lemma_be_bytes_u64_injective(x: u64, y: u64)
    requires
        be_bytes_u64(x) == be_bytes_u64(y),
    ensures
        x == y,
{
    let a = be_bytes_u64(x);
    let b = be_bytes_u64(y);
    assert(a[0] == b[0] && a[1] == b[1] && a[2] == b[2] && a[3] == b[3]);
    assert(a[4] == b[4] && a[5] == b[5] && a[6] == b[6] && a[7] == b[7]);
    assert(x / 0x100_0000_0000_0000 == y / 0x100_0000_0000_0000);
    assert(x / 0x1_0000_0000_0000 % 0x100 == y / 0x1_0000_0000_0000 % 0x100);
    assert(x / 0x100_0000_0000 % 0x100 == y / 0x100_0000_0000 % 0x100);
    assert(x / 0x1_0000_0000 % 0x100 == y / 0x1_0000_0000 % 0x100);
    assert(x / 0x100_0000 % 0x100 == y / 0x100_0000 % 0x100);
    assert(x / 0x1_0000 % 0x100 == y / 0x1_0000 % 0x100);
    assert(x / 0x100 % 0x100 == y / 0x100 % 0x100);
    assert(x % 0x100 == y % 0x100);
    assert(x == y) by (bit_vector)
        requires
            x / 0x100_0000_0000_0000 == y / 0x100_0000_0000_0000,
            x / 0x1_0000_0000_0000 % 0x100 == y / 0x1_0000_0000_0000 % 0x100,
            x / 0x100_0000_0000 % 0x100 == y / 0x100_0000_0000 % 0x100,
            x / 0x1_0000_0000 % 0x100 == y / 0x1_0000_0000 % 0x100,
            x / 0x100_0000 % 0x100 == y / 0x100_0000 % 0x100,
            x / 0x1_0000 % 0x100 == y / 0x1_0000 % 0x100,
            x / 0x100 % 0x100 == y / 0x100 % 0x100,
            x % 0x100 == y % 0x100,
    ;
}

/// Two's complement keeps distinct numbers distinct.
pub proof fn lemma_twos_complement_injective(a: i32, b: i32)
    requires
        twos_complement_u32(a) == twos_complement_u32(b),
    ensures
        a == b,
{
}

} // verus!
