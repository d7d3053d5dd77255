//! Little-endian integer layouts used by the wire format.
use vstd::prelude::*;

verus! {

/// The four little-endian bytes of `v`.
pub open spec fn le_bytes_u32(v: u32) -> Seq<u8> {
    seq![
        (v % 256) as u8,
        (v / 256 % 256) as u8,
        (v / 65536 % 256) as u8,
        (v / 16777216) as u8,
    ]
}

/// The two little-endian bytes of `v`.
pub open spec fn le_bytes_u16(v: u16) -> Seq<u8> {
    seq![(v % 256) as u8, (v / 256) as u8]
}

/// The value of the four little-endian bytes of `s` starting at `at`.
pub open spec fn le_value_u32(s: Seq<u8>, at: int) -> nat {
    (s[at] as nat) + 256 * (s[at + 1] as nat) + 65536 * (s[at + 2] as nat) + 16777216 * (
    s[at + 3] as nat)
}

/// The value of the two little-endian bytes of `s` starting at `at`.
pub open spec fn le_value_u16(s: Seq<u8>, at: int) -> nat {
    (s[at] as nat) + 256 * (s[at + 1] as nat)
}

/// Reading back the bytes of a `u32` gives the `u32`.
pub proof fn lemma_le_u32_round_trip(v: u32)
    ensures
        le_value_u32(le_bytes_u32(v), 0) == v,
{
    let s = le_bytes_u32(v);
    assert(s[0] as nat == v % 256);
    assert(s[1] as nat == v / 256 % 256);
    assert(s[2] as nat == v / 65536 % 256);
    assert(s[3] as nat == v / 16777216);
    assert((v % 256) + 256 * (v / 256 % 256) + 65536 * (v / 65536 % 256) + 16777216 * (v
        / 16777216) == v) by (nonlinear_arith);
}

/// Reading back the bytes of a `u16` gives the `u16`.
pub proof fn lemma_le_u16_round_trip(v: u16)
    ensures
        le_value_u16(le_bytes_u16(v), 0) == v,
{
    let s = le_bytes_u16(v);
    assert(s[0] as nat == v % 256);
    assert(s[1] as nat == v / 256);
}

/// Appends the little-endian bytes of `v` to `dst`.
pub fn push_u32_le(dst: &mut Vec<u8>, v: u32)
    ensures
        final(dst)@ == old(dst)@ + le_bytes_u32(v),
{
    dst.push((v % 256) as u8);
    dst.push((v / 256 % 256) as u8);
    dst.push((v / 65536 % 256) as u8);
    dst.push((v / 16777216) as u8);
    assert(dst@ =~= old(dst)@ + le_bytes_u32(v));
}

/// Appends the little-endian bytes of `v` to `dst`.
pub fn push_u16_le(dst: &mut Vec<u8>, v: u16)
    ensures
        final(dst)@ == old(dst)@ + le_bytes_u16(v),
{
    dst.push((v % 256) as u8);
    dst.push((v / 256) as u8);
    assert(dst@ =~= old(dst)@ + le_bytes_u16(v));
}

/// Reads the little-endian `u32` of `s` starting at `at`.
pub fn read_u32_le(s: &[u8], at: usize) -> (r: u32)
    requires
        at + 4 <= s@.len(),
    ensures
        r == le_value_u32(s@, at as int),
{
    let b0 = s[at] as u32;
    let b1 = s[at + 1] as u32;
    let b2 = s[at + 2] as u32;
    let b3 = s[at + 3] as u32;
    b0 + 256 * b1 + 65536 * b2 + 16777216 * b3
}

/// Reads the little-endian `u16` of `s` starting at `at`.
pub fn read_u16_le(s: &[u8], at: usize) -> (r: u16)
    requires
        at + 2 <= s@.len(),
    ensures
        r == le_value_u16(s@, at as int),
{
    let b0 = s[at] as u16;
    let b1 = s[at + 1] as u16;
    b0 + 256 * b1
}

/// Appends every byte of `src` to `dst`, in order.
pub fn append_bytes(dst: &mut Vec<u8>, src: &[u8])
    ensures
        final(dst)@ == old(dst)@ + src@,
{
    let mut i: usize = 0;
    while i < src.len()
        invariant
            i <= src@.len(),
            dst@ == old(dst)@ + src@.subrange(0, i as int),
        decreases src@.len() - i,
    {
        dst.push(src[i]);
        i = i + 1;
        assert(dst@ =~= old(dst)@ + src@.subrange(0, i as int));
    }
    assert(src@.subrange(0, i as int) =~= src@);
}

} // verus!
