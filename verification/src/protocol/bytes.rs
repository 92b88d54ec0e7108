//! Byte-level layout shared by every packet: checksums, integers, padding.

use vstd::prelude::*;

verus! {

/// The XOR of all bytes of `s`; zero when there are none.
pub open spec fn xor_of(s: Seq<u8>) -> u8
    decreases s.len(),
{
    if s.len() == 0 {
        0
    } else {
        xor_of(s.drop_last()) ^ s.last()
    }
}

/// `n` zero bytes.
pub open spec fn zeros(n: nat) -> Seq<u8> {
    Seq::new(n, |i: int| 0u8)
}

/// Byte `i` of `s`, or zero where `s` has none.
pub open spec fn byte_or_zero(s: Seq<u8>, i: int) -> u8 {
    if i < s.len() {
        s[i]
    } else {
        0
    }
}

/// The four bytes of `x`, least significant first.
pub open spec fn le32(x: u32) -> Seq<u8> {
    seq![
        (x % 256) as u8,
        (x / 256 % 256) as u8,
        (x / 65536 % 256) as u8,
        (x / 16777216) as u8,
    ]
}

/// The number whose bytes, least significant first, are `b0` to `b3`.
pub open spec fn from_le32(b0: u8, b1: u8, b2: u8, b3: u8) -> u32 {
    (b0 + 256 * b1 + 65536 * b2 + 16777216 * b3) as u32
}

/// Appending its own XOR to a byte string makes the XOR of the whole zero.
pub proof fn law_checksum_cancels(s: Seq<u8>)
    ensures
        xor_of(s.push(xor_of(s))) == 0,
{
    let x = xor_of(s);
    assert(s.push(x).drop_last() =~= s);
    assert(x ^ x == 0) by (bit_vector);
}

/// Splitting a number into bytes and joining them gives the number back.
pub proof fn law_le32_roundtrip(x: u32)
    ensures
        from_le32(le32(x)[0], le32(x)[1], le32(x)[2], le32(x)[3]) == x,
{
}

/// Joining four bytes and splitting the number gives the bytes back.
pub proof fn law_le32_joined(b0: u8, b1: u8, b2: u8, b3: u8)
    ensures
        le32(from_le32(b0, b1, b2, b3)) == seq![b0, b1, b2, b3],
{
    let x = from_le32(b0, b1, b2, b3);
    assert(x == b0 + 256 * b1 + 65536 * b2 + 16777216 * b3);
    assert(x / 256 == b1 + 256 * b2 + 65536 * b3);
    assert(x / 65536 == b2 + 256 * b3);
    assert(x / 16777216 == b3);
    assert(le32(x)[0] == b0);
    assert(le32(x)[1] == b1);
    assert(le32(x)[2] == b2);
    assert(le32(x) =~= seq![b0, b1, b2, b3]);
}

/// The XOR of the first `n` bytes of `buf`.
pub fn xor_prefix(buf: &[u8], n: usize) -> (xor: u8)
    requires
        n <= buf@.len(),
    ensures
        xor == xor_of(buf@.take(n as int)),
{
    let mut xor: u8 = 0;
    let mut i: usize = 0;
    while i < n
        invariant
            i <= n,
            n <= buf@.len(),
            xor == xor_of(buf@.take(i as int)),
        decreases n - i,
    {
        xor = xor ^ buf[i];
        assert(buf@.take(i + 1).drop_last() =~= buf@.take(i as int));
        i += 1;
    }
    xor
}

/// Byte `i` of `x`, counted from the least significant.
pub fn le32_byte(x: u32, i: usize) -> (b: u8)
    requires
        i < 4,
    ensures
        b == le32(x)[i as int],
{
    if i == 0 {
        (x % 256) as u8
    } else if i == 1 {
        (x / 256 % 256) as u8
    } else if i == 2 {
        (x / 65536 % 256) as u8
    } else {
        (x / 16777216) as u8
    }
}

/// The number whose bytes, least significant first, are `b0` to `b3`.
pub fn join_le32(b0: u8, b1: u8, b2: u8, b3: u8) -> (x: u32)
    ensures
        x == from_le32(b0, b1, b2, b3),
{
    b0 as u32 + 256 * (b1 as u32) + 65536 * (b2 as u32) + 16777216 * (b3 as u32)
}

// ───────────────────────────── Laws ─────────────────────────────

/// The four bytes of a number are its digits to the base 256, least significant first.
pub proof fn law_le32_digits(x: u32)
    ensures
        le32(x).len() == 4,
        le32(x)[0] + 0x100 * le32(x)[1] + 0x1_0000 * le32(x)[2] + 0x100_0000 * le32(x)[3] == x,
{
}

/// The XOR of no bytes is zero, that of one byte is the byte, and that of two strings
/// is the XOR of theirs.
pub proof fn law_xor_of_parts(a: Seq<u8>, b: Seq<u8>)
    ensures
        xor_of(Seq::<u8>::empty()) == 0,
        a.len() == 1 ==> xor_of(a) == a[0],
        xor_of(a + b) == xor_of(a) ^ xor_of(b),
    decreases b.len(),
{
    if a.len() == 1 {
        reveal_with_fuel(xor_of, 2);
        let x = a[0];
        assert(0u8 ^ x == x) by (bit_vector);
        assert(a.drop_last() =~= Seq::empty());
    }
    let x = xor_of(a);
    if b.len() == 0 {
        assert(a + b =~= a);
        assert(x ^ 0u8 == x) by (bit_vector);
    } else {
        law_xor_of_parts(a, b.drop_last());
        assert((a + b).drop_last() =~= a + b.drop_last());
        let y = xor_of(b.drop_last());
        let z = b.last();
        assert((x ^ y) ^ z == x ^ (y ^ z)) by (bit_vector);
    }
}

/// The fields of a flag byte, cut out by shifting and masking.
pub proof fn lemma_flag_fields(f: u8)
    by (bit_vector)
    ensures
        (f & 0x80 != 0) == (f >= 128),
        (f & 0x40 != 0) == (f / 64 % 2 == 1),
        (f >> 4) & 3 == f / 16 % 4,
        f & 0x0f == f % 16,
        f & 3 == f % 4,
{
}

/// Masking an identifier to its 11 or 29 bits.
pub proof fn lemma_id_masks(id: u32)
    by (bit_vector)
    ensures
        id & 0x7ff == id % 0x800,
        id & 0x1fff_ffff == id % 0x2000_0000,
{
}

} // verus!
