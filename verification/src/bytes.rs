//! Byte-level helpers shared by the report and descriptor builders: clamping,
//! little-endian splitting and joining, and appending slices to a buffer.

use vstd::prelude::*;

verus! {

/// `v` limited to `lo..=hi`, as `Ord::clamp` computes it.
pub open spec fn clamp_spec(v: int, lo: int, hi: int) -> int {
    if v < lo {
        lo
    } else if v > hi {
        hi
    } else {
        v
    }
}

/// Integer division rounding toward zero, as Rust's `/` on signed integers.
pub open spec fn trunc_div(a: int, b: int) -> int {
    if a >= 0 {
        a / b
    } else {
        -((-a) / b)
    }
}

/// Low byte of a 16-bit value.
pub open spec fn lo_byte(v: u16) -> u8 {
    (v % 256) as u8
}

/// High byte of a 16-bit value.
pub open spec fn hi_byte(v: u16) -> u8 {
    (v / 256) as u8
}

/// The value of a little-endian byte pair.
pub open spec fn le16(lo: u8, hi: u8) -> int {
    lo + 256 * hi
}

/// The four little-endian bytes of a 32-bit value.
pub open spec fn le32_bytes(v: u32) -> Seq<u8> {
    seq![
        (v % 256) as u8,
        ((v / 256) % 256) as u8,
        ((v / 65536) % 256) as u8,
        (v / 16777216) as u8,
    ]
}

/// The value of four little-endian bytes.
pub open spec fn le32(b0: u8, b1: u8, b2: u8, b3: u8) -> int {
    b0 + 256 * b1 + 65536 * b2 + 16777216 * b3
}

/// `Ord::clamp` on `i32`.
pub fn clamp_i32(v: i32, lo: i32, hi: i32) -> (r: i32)
    requires
        lo <= hi,
    ensures
        r == clamp_spec(v as int, lo as int, hi as int),
{
    if v < lo {
        lo
    } else if v > hi {
        hi
    } else {
        v
    }
}

/// Low byte of a 16-bit value.
pub fn lo(v: u16) -> (r: u8)
    ensures
        r == lo_byte(v),
{
    (v % 256) as u8
}

/// High byte of a 16-bit value.
pub fn hi(v: u16) -> (r: u8)
    ensures
        r == hi_byte(v),
{
    (v / 256) as u8
}

/// Little-endian bytes of a 32-bit value.
pub fn le32_of(v: u32) -> (r: [u8; 4])
    ensures
        r@ == le32_bytes(v),
{
    [(v % 256) as u8, ((v / 256) % 256) as u8, ((v / 65536) % 256) as u8, (v / 16777216) as u8]
}

/// Splitting a 16-bit value into its two bytes loses nothing.
pub proof fn lemma_le16_split(v: u16)
    ensures
        le16(lo_byte(v), hi_byte(v)) == v,
{
}

/// Splitting a 32-bit value into its four bytes loses nothing.
pub proof fn lemma_le32_split(v: u32)
    ensures
        ({
            let b = le32_bytes(v);
            le32(b[0], b[1], b[2], b[3]) == v
        }),
{
}

/// Appends every byte of `s` to `d`.
pub fn push_all(d: &mut Vec<u8>, s: &[u8])
    ensures
        final(d)@ == old(d)@ + s@,
{
    let mut i: usize = 0;
    while i < s.len()
        invariant
            i <= s@.len(),
            d@ == old(d)@ + s@.subrange(0, i as int),
        decreases s@.len() - i,
    {
        d.push(s[i]);
        i = i + 1;
        assert(s@.subrange(0, i as int) == s@.subrange(0, i - 1 as int).push(s@[i - 1]));
    }
    assert(s@.subrange(0, s@.len() as int) == s@);
}

} // verus!
