//! Little-endian byte encodings of fixed-width integers, as the game's data
//! structures and the ESD expression format store them.

use vstd::prelude::*;
use vstd::arithmetic::div_mod::lemma_fundamental_div_mod;

verus! {

/// The 32-bit two's complement pattern of `v`, as a natural number.
pub open spec fn i32_bits(v: i32) -> nat {
    if v >= 0 {
        v as nat
    } else {
        (v + 0x1_0000_0000) as nat
    }
}

/// The signed value whose 32-bit two's complement pattern is `u`.
pub open spec fn i32_of_bits(u: nat) -> int {
    if u >= 0x8000_0000 {
        u - 0x1_0000_0000
    } else {
        u as int
    }
}

/// The four little-endian bytes of `x` (taken modulo 2^32).
pub open spec fn le4(x: nat) -> Seq<u8> {
    seq![
        (x % 256) as u8,
        ((x / 256) % 256) as u8,
        ((x / 256 / 256) % 256) as u8,
        ((x / 256 / 256 / 256) % 256) as u8,
    ]
}

/// The two little-endian bytes of `x` (taken modulo 2^16).
pub open spec fn le2(x: nat) -> Seq<u8> {
    seq![(x % 256) as u8, ((x / 256) % 256) as u8]
}

/// The eight little-endian bytes of `x` (taken modulo 2^64).
pub open spec fn le8(x: nat) -> Seq<u8> {
    le4(x % 0x1_0000_0000) + le4((x / 0x1_0000_0000) % 0x1_0000_0000)
}

/// The number that four little-endian bytes encode.
pub open spec fn from_le4(b: Seq<u8>) -> nat
    recommends
        b.len() >= 4,
{
    (b[0] + 256 * (b[1] + 256 * (b[2] + 256 * b[3]))) as nat
}

/// The signed little-endian `i32` at the start of `b`.
pub open spec fn i32_from_le(b: Seq<u8>) -> int
    recommends
        b.len() >= 4,
{
    i32_of_bits(from_le4(b))
}

/// The little-endian bytes of an `i32`.
pub open spec fn i32_le(v: i32) -> Seq<u8> {
    le4(i32_bits(v))
}

pub proof fn lemma_le4_roundtrip(x: nat)
    requires
        x < 0x1_0000_0000,
    ensures
        from_le4(le4(x)) == x,
        le4(x).len() == 4,
{
    let q1 = x / 256;
    let q2 = q1 / 256;
    let q3 = q2 / 256;
    lemma_fundamental_div_mod(x as int, 256);
    lemma_fundamental_div_mod(q1 as int, 256);
    lemma_fundamental_div_mod(q2 as int, 256);
    assert(q3 < 256) by (nonlinear_arith)
        requires
            x < 0x1_0000_0000,
            q1 == x / 256,
            q2 == q1 / 256,
            q3 == q2 / 256,
    ;
    assert(q3 % 256 == q3);
}

pub proof fn lemma_i32_bits_roundtrip(v: i32)
    ensures
        i32_bits(v) < 0x1_0000_0000,
        i32_of_bits(i32_bits(v)) == v,
        i32_from_le(i32_le(v)) == v,
{
    lemma_le4_roundtrip(i32_bits(v));
}

/// Little-endian bytes of a signed 32-bit value.
pub fn i32_to_le(v: i32) -> (r: [u8; 4])
    ensures
        r@ == i32_le(v),
{
    let u: u32 = if v >= 0 {
        v as u32
    } else {
        (v as i64 + 0x1_0000_0000i64) as u32
    };
    u32_to_le(u)
}

/// Little-endian bytes of an unsigned 32-bit value.
pub fn u32_to_le(u: u32) -> (r: [u8; 4])
    ensures
        r@ == le4(u as nat),
{
    let b0 = (u % 256) as u8;
    let b1 = ((u / 256) % 256) as u8;
    let b2 = ((u / 256 / 256) % 256) as u8;
    let b3 = ((u / 256 / 256 / 256) % 256) as u8;
    let r = [b0, b1, b2, b3];
    assert(r@ =~= le4(u as nat));
    r
}

/// Little-endian bytes of an unsigned 16-bit value.
pub fn u16_to_le(u: u16) -> (r: [u8; 2])
    ensures
        r@ == le2(u as nat),
{
    let r = [(u % 256) as u8, ((u / 256) % 256) as u8];
    assert(r@ =~= le2(u as nat));
    r
}

/// Little-endian bytes of an unsigned 64-bit value.
pub fn u64_to_le(u: u64) -> (r: [u8; 8])
    ensures
        r@ == le8(u as nat),
{
    let lo = u32_to_le((u % 0x1_0000_0000) as u32);
    let hi = u32_to_le(((u / 0x1_0000_0000) % 0x1_0000_0000) as u32);
    let r = [lo[0], lo[1], lo[2], lo[3], hi[0], hi[1], hi[2], hi[3]];
    assert(r@ =~= le8(u as nat));
    r
}

/// The unsigned 32-bit value of four little-endian bytes.
pub fn u32_from_le(b0: u8, b1: u8, b2: u8, b3: u8) -> (r: u32)
    ensures
        r as nat == from_le4(seq![b0, b1, b2, b3]),
{
    let r = b0 as u32 + 256 * (b1 as u32 + 256 * (b2 as u32 + 256 * b3 as u32));
    r
}

/// The signed 32-bit value of four little-endian bytes.
pub fn i32_from_le_bytes(b0: u8, b1: u8, b2: u8, b3: u8) -> (r: i32)
    ensures
        r as int == i32_from_le(seq![b0, b1, b2, b3]),
{
    let u = u32_from_le(b0, b1, b2, b3);
    if u >= 0x8000_0000 {
        (u as i64 - 0x1_0000_0000i64) as i32
    } else {
        u as i32
    }
}

/// The number that eight little-endian bytes encode.
pub open spec fn from_le8(b: Seq<u8>) -> nat
    recommends
        b.len() >= 8,
{
    from_le4(b) + 0x1_0000_0000 * from_le4(b.skip(4))
}

/// Four bytes encode a number below 2^32.
pub proof fn lemma_from_le4_bound(b: Seq<u8>)
    requires
        b.len() >= 4,
    ensures
        from_le4(b) < 0x1_0000_0000,
{
}

/// The little-endian `u32` at `off` in `s`.
pub fn read_u32(s: &[u8], off: usize) -> (r: u32)
    requires
        off + 4 <= s.len(),
    ensures
        r as nat == from_le4(s@.subrange(off as int, off + 4)),
{
    let r = u32_from_le(s[off], s[off + 1], s[off + 2], s[off + 3]);
    assert(s@.subrange(off as int, off + 4) =~= seq![s@[off as int], s@[off + 1], s@[off + 2], s@[off + 3]]);
    r
}

/// The little-endian `u64` at `off` in `s`.
pub fn read_u64(s: &[u8], off: usize) -> (r: u64)
    requires
        off + 8 <= s.len(),
    ensures
        r as nat == from_le8(s@.subrange(off as int, off + 8)),
{
    let lo = read_u32(s, off);
    let hi = read_u32(s, off + 4);
    assert(s@.subrange(off as int, off + 8).skip(4) =~= s@.subrange(off + 4, off + 8));
    assert(s@.subrange(off as int, off + 8).subrange(0, 4) =~= s@.subrange(off as int, off + 4));
    assert(from_le4(s@.subrange(off as int, off + 8)) == from_le4(s@.subrange(off as int, off + 4)));
    assert(hi as nat * 0x1_0000_0000 + lo as nat <= u64::MAX) by (nonlinear_arith)
        requires hi <= u32::MAX, lo <= u32::MAX;
    lo as u64 + (hi as u64) * 0x1_0000_0000
}

/// Whether two byte strings are equal.
pub fn bytes_eq(a: &[u8], b: &[u8]) -> (r: bool)
    ensures
        r == (a@ == b@),
{
    if a.len() != b.len() {
        return false;
    }
    for i in 0..a.len()
        invariant
            a.len() == b.len(),
            forall|k: int| 0 <= k < i ==> a@[k] == b@[k],
    {
        if a[i] != b[i] {
            return false;
        }
    }
    assert(a@ =~= b@);
    true
}

} // verus!
