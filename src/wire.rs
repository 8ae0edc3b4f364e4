//! Little-endian layout of the integers that travel in a record payload.
//!
//! The records are produced on little-endian hosts, so every multi-byte
//! integer of the wire format is read and written least significant byte
//! first.
use vstd::prelude::*;

verus! {

/// The unsigned 16-bit value held by `s[i]`, `s[i + 1]`.
pub open spec fn u16_at(s: Seq<u8>, i: int) -> int {
    s[i] as int + 256 * (s[i + 1] as int)
}

/// The unsigned 32-bit value held by the four bytes from `s[i]` on.
pub open spec fn u32_at(s: Seq<u8>, i: int) -> int {
    u16_at(s, i) + 65536 * u16_at(s, i + 2)
}

/// The unsigned 64-bit value held by the eight bytes from `s[i]` on.
pub open spec fn u64_at(s: Seq<u8>, i: int) -> int {
    u32_at(s, i) + 4294967296 * u32_at(s, i + 4)
}

/// The two bytes that encode `v`.
pub open spec fn u16_bytes(v: u16) -> Seq<u8> {
    seq![(v % 256) as u8, (v / 256) as u8]
}

/// The four bytes that encode `v`.
pub open spec fn u32_bytes(v: u32) -> Seq<u8> {
    u16_bytes((v % 65536) as u16) + u16_bytes((v / 65536) as u16)
}

/// The eight bytes that encode `v`.
pub open spec fn u64_bytes(v: u64) -> Seq<u8> {
    u32_bytes((v % 4294967296) as u32) + u32_bytes((v / 4294967296) as u32)
}

/// The `n` samples stored one after the other from `s[start]` on.
pub open spec fn samples_at(s: Seq<u8>, start: int, n: nat) -> Seq<u16> {
    Seq::new(n, |k: int| u16_at(s, start + 2 * k) as u16)
}

/// The bytes of a sequence of samples, each written as two bytes in turn.
pub open spec fn samples_bytes(w: Seq<u16>) -> Seq<u8>
    decreases w.len(),
{
    if w.len() == 0 {
        Seq::empty()
    } else {
        samples_bytes(w.drop_last()) + u16_bytes(w.last())
    }
}

pub proof fn lemma_u16_round_trip(v: u16)
    ensures
        u16_bytes(v).len() == 2,
        u16_at(u16_bytes(v), 0) == v as int,
{
    assert((v % 256) as u8 as int == v as int % 256);
    assert((v / 256) as u8 as int == v as int / 256);
    assert(v as int % 256 + 256 * (v as int / 256) == v as int) by (nonlinear_arith);
}

pub proof fn lemma_u32_round_trip(v: u32)
    ensures
        u32_bytes(v).len() == 4,
        u32_at(u32_bytes(v), 0) == v as int,
{
    let lo = (v % 65536) as u16;
    let hi = (v / 65536) as u16;
    lemma_u16_round_trip(lo);
    lemma_u16_round_trip(hi);
    let s = u32_bytes(v);
    assert(s.subrange(0, 2) =~= u16_bytes(lo));
    assert(s.subrange(2, 4) =~= u16_bytes(hi));
    assert(u16_at(s, 0) == u16_at(u16_bytes(lo), 0));
    assert(u16_at(s, 2) == u16_at(u16_bytes(hi), 0));
    assert(v as int % 65536 + 65536 * (v as int / 65536) == v as int) by (nonlinear_arith);
}

pub proof fn lemma_u64_round_trip(v: u64)
    ensures
        u64_bytes(v).len() == 8,
        u64_at(u64_bytes(v), 0) == v as int,
{
    let lo = (v % 4294967296) as u32;
    let hi = (v / 4294967296) as u32;
    lemma_u32_round_trip(lo);
    lemma_u32_round_trip(hi);
    let s = u64_bytes(v);
    assert(u32_at(s, 0) == u32_at(u32_bytes(lo), 0));
    assert(u32_at(s, 4) == u32_at(u32_bytes(hi), 0));
    assert(v as int % 4294967296 + 4294967296 * (v as int / 4294967296) == v as int)
        by (nonlinear_arith);
}

proof fn lemma_split(a: int, b: int, m: int)
    requires
        0 <= a < m,
        0 <= b < m,
        m == 256 || m == 65536 || m == 4294967296,
    ensures
        (a + m * b) % m == a,
        (a + m * b) / m == b,
{
    assert((a + m * b) % m == a && (a + m * b) / m == b) by (nonlinear_arith)
        requires
            0 <= a < m,
            0 <= b < m,
            m > 0,
    ;
}

proof fn lemma_u16_range(s: Seq<u8>, i: int)
    requires
        0 <= i,
        i + 2 <= s.len(),
    ensures
        0 <= u16_at(s, i) < 65536,
{
}

proof fn lemma_u32_range(s: Seq<u8>, i: int)
    requires
        0 <= i,
        i + 4 <= s.len(),
    ensures
        0 <= u32_at(s, i) < 4294967296,
{
    lemma_u16_range(s, i);
    lemma_u16_range(s, i + 2);
}

/// Encoding the value read at `s[i]` gives back the bytes it was read from.
pub proof fn lemma_u16_reencode(s: Seq<u8>, i: int)
    requires
        0 <= i,
        i + 2 <= s.len(),
    ensures
        u16_bytes(u16_at(s, i) as u16) == s.subrange(i, i + 2),
{
    lemma_split(s[i] as int, s[i + 1] as int, 256);
    assert(u16_bytes(u16_at(s, i) as u16) =~= s.subrange(i, i + 2));
}

/// Encoding the value read at `s[i]` gives back the bytes it was read from.
pub proof fn lemma_u32_reencode(s: Seq<u8>, i: int)
    requires
        0 <= i,
        i + 4 <= s.len(),
    ensures
        u32_bytes(u32_at(s, i) as u32) == s.subrange(i, i + 4),
{
    lemma_u16_range(s, i);
    lemma_u16_range(s, i + 2);
    lemma_split(u16_at(s, i), u16_at(s, i + 2), 65536);
    lemma_u16_reencode(s, i);
    lemma_u16_reencode(s, i + 2);
    assert(u32_bytes(u32_at(s, i) as u32) =~= s.subrange(i, i + 4));
}

/// Encoding the value read at `s[i]` gives back the bytes it was read from.
pub proof fn lemma_u64_reencode(s: Seq<u8>, i: int)
    requires
        0 <= i,
        i + 8 <= s.len(),
    ensures
        u64_bytes(u64_at(s, i) as u64) == s.subrange(i, i + 8),
{
    lemma_u32_range(s, i);
    lemma_u32_range(s, i + 4);
    lemma_split(u32_at(s, i), u32_at(s, i + 4), 4294967296);
    lemma_u32_reencode(s, i);
    lemma_u32_reencode(s, i + 4);
    assert(u64_bytes(u64_at(s, i) as u64) =~= s.subrange(i, i + 8));
}

/// Reads the 16-bit value at `b[i]`.
pub fn read_u16(b: &Vec<u8>, i: usize) -> (r: u16)
    requires
        i + 2 <= b@.len(),
    ensures
        r as int == u16_at(b@, i as int),
{
    // Bounds the indices below by the largest `usize`.
    let _len: usize = b.len();
    b[i] as u16 + (b[i + 1] as u16) * 256
}

/// Reads the 32-bit value at `b[i]`.
pub fn read_u32(b: &Vec<u8>, i: usize) -> (r: u32)
    requires
        i + 4 <= b@.len(),
    ensures
        r as int == u32_at(b@, i as int),
{
    // Bounds the indices below by the largest `usize`.
    let _len: usize = b.len();
    read_u16(b, i) as u32 + (read_u16(b, i + 2) as u32) * 65536
}

/// Reads the 64-bit value at `b[i]`.
pub fn read_u64(b: &Vec<u8>, i: usize) -> (r: u64)
    requires
        i + 8 <= b@.len(),
    ensures
        r as int == u64_at(b@, i as int),
{
    // Bounds the indices below by the largest `usize`.
    let _len: usize = b.len();
    read_u32(b, i) as u64 + (read_u32(b, i + 4) as u64) * 4294967296
}

/// Appends the two bytes of `v` to `out`.
pub fn push_u16(out: &mut Vec<u8>, v: u16)
    ensures
        final(out)@ == old(out)@ + u16_bytes(v),
{
    out.push((v % 256) as u8);
    out.push((v / 256) as u8);
    assert(final(out)@ =~= old(out)@ + u16_bytes(v));
}

/// Appends the four bytes of `v` to `out`.
pub fn push_u32(out: &mut Vec<u8>, v: u32)
    ensures
        final(out)@ == old(out)@ + u32_bytes(v),
{
    push_u16(out, (v % 65536) as u16);
    push_u16(out, (v / 65536) as u16);
    assert(final(out)@ =~= old(out)@ + u32_bytes(v));
}

/// Appends the eight bytes of `v` to `out`.
pub fn push_u64(out: &mut Vec<u8>, v: u64)
    ensures
        final(out)@ == old(out)@ + u64_bytes(v),
{
    push_u32(out, (v % 4294967296) as u32);
    push_u32(out, (v / 4294967296) as u32);
    assert(final(out)@ =~= old(out)@ + u64_bytes(v));
}

} // verus!
