//! Fixed-width integers as byte sequences, least or most significant byte first.
//!
//! The value of a byte sequence is stated arithmetically, so that contracts
//! built on it stay within linear arithmetic.

use vstd::prelude::*;

verus! {

/// The unsigned value of two bytes, least significant first.
pub open spec fn spec_le_u16(s: Seq<u8>) -> int {
    s[0] as int + 0x100 * (s[1] as int)
}

/// The unsigned value of three bytes, least significant first.
pub open spec fn spec_le_u24(s: Seq<u8>) -> int {
    s[0] as int + 0x100 * (s[1] as int) + 0x1_0000 * (s[2] as int)
}

/// The unsigned value of four bytes, least significant first.
pub open spec fn spec_le_u32(s: Seq<u8>) -> int {
    s[0] as int + 0x100 * (s[1] as int) + 0x1_0000 * (s[2] as int) + 0x100_0000 * (s[3] as int)
}

/// The unsigned value of eight bytes, least significant first.
pub open spec fn spec_le_u64(s: Seq<u8>) -> int {
    spec_le_u32(s.subrange(0, 4)) + 0x1_0000_0000 * spec_le_u32(s.subrange(4, 8))
}

/// The unsigned value of two bytes, most significant first.
pub open spec fn spec_be_u16(s: Seq<u8>) -> int {
    0x100 * (s[0] as int) + s[1] as int
}

/// The unsigned value of four bytes, most significant first.
pub open spec fn spec_be_u32(s: Seq<u8>) -> int {
    0x100_0000 * (s[0] as int) + 0x1_0000 * (s[1] as int) + 0x100 * (s[2] as int) + s[3] as int
}

/// The two's-complement reading of `v`, an unsigned value below `modulus`.
pub open spec fn as_signed(v: int, modulus: int) -> int {
    if 2 * v >= modulus {
        v - modulus
    } else {
        v
    }
}

/// The unsigned value below `modulus` whose two's-complement reading is `v`.
pub open spec fn as_unsigned(v: int, modulus: int) -> int {
    if v < 0 {
        v + modulus
    } else {
        v
    }
}

/// What is left of `v` when only the low bits that make up `modulus` are
/// kept and read as a signed number.
pub open spec fn wrap_signed(v: int, modulus: int) -> int {
    as_signed(v % modulus, modulus)
}

/// The two bytes of `x`, least significant first.
pub open spec fn spec_u16_le_bytes(x: int) -> Seq<u8> {
    seq![(x % 0x100) as u8, (x / 0x100 % 0x100) as u8]
}

/// The three low bytes of `x`, least significant first.
pub open spec fn spec_u24_le_bytes(x: int) -> Seq<u8> {
    seq![(x % 0x100) as u8, (x / 0x100 % 0x100) as u8, (x / 0x1_0000 % 0x100) as u8]
}

/// The four bytes of `x`, least significant first.
pub open spec fn spec_u32_le_bytes(x: int) -> Seq<u8> {
    seq![
        (x % 0x100) as u8,
        (x / 0x100 % 0x100) as u8,
        (x / 0x1_0000 % 0x100) as u8,
        (x / 0x100_0000 % 0x100) as u8,
    ]
}

/// The eight bytes of `x`, least significant first.
pub open spec fn spec_u64_le_bytes(x: int) -> Seq<u8> {
    spec_u32_le_bytes(x % 0x1_0000_0000) + spec_u32_le_bytes(x / 0x1_0000_0000)
}

/// Two bytes written from a number give the number back.
pub proof fn lemma_u16_le_round_trip(x: int)
    requires
        0 <= x < 0x1_0000,
    ensures
        spec_u16_le_bytes(x).len() == 2,
        spec_le_u16(spec_u16_le_bytes(x)) == x,
{
}

/// Three bytes written from a number give its low 24 bits back.
pub proof fn lemma_u24_le_round_trip(x: int)
    requires
        0 <= x < 0x1_0000_0000,
    ensures
        spec_u24_le_bytes(x).len() == 3,
        spec_le_u24(spec_u24_le_bytes(x)) == x % 0x100_0000,
{
    let low = x % 0x100_0000;
    assert(x % 0x100 == low % 0x100);
    assert(x / 0x100 % 0x100 == low / 0x100 % 0x100);
    assert(x / 0x1_0000 % 0x100 == low / 0x1_0000);
}

/// Four bytes written from a number give the number back.
pub proof fn lemma_u32_le_round_trip(x: int)
    requires
        0 <= x < 0x1_0000_0000,
    ensures
        spec_u32_le_bytes(x).len() == 4,
        spec_le_u32(spec_u32_le_bytes(x)) == x,
{
}

/// Eight bytes written from a number give the number back.
pub proof fn lemma_u64_le_round_trip(x: int)
    requires
        0 <= x < 0x1_0000_0000_0000_0000,
    ensures
        spec_u64_le_bytes(x).len() == 8,
        spec_le_u64(spec_u64_le_bytes(x)) == x,
{
    let lo = x % 0x1_0000_0000;
    let hi = x / 0x1_0000_0000;
    let b = spec_u64_le_bytes(x);
    assert(b.subrange(0, 4) =~= spec_u32_le_bytes(lo));
    assert(b.subrange(4, 8) =~= spec_u32_le_bytes(hi));
    lemma_u32_le_round_trip(lo);
    lemma_u32_le_round_trip(hi);
}

/// Where two bytes written from a number stand at the offset `k` of a
/// sequence, the number is read from there.
pub proof fn lemma_le_u16_at(s: Seq<u8>, k: int, x: int)
    requires
        0 <= k,
        k + 2 <= s.len(),
        0 <= x < 0x1_0000,
        s.subrange(k, k + 2) == spec_u16_le_bytes(x),
    ensures
        spec_le_u16(s.skip(k)) == x,
{
    lemma_u16_le_round_trip(x);
    assert(s.skip(k)[0] == s.subrange(k, k + 2)[0]);
    assert(s.skip(k)[1] == s.subrange(k, k + 2)[1]);
}

/// Where four bytes written from a number stand at the offset `k` of a
/// sequence, the number is read from there.
pub proof fn lemma_le_u32_at(s: Seq<u8>, k: int, x: int)
    requires
        0 <= k,
        k + 4 <= s.len(),
        0 <= x < 0x1_0000_0000,
        s.subrange(k, k + 4) == spec_u32_le_bytes(x),
    ensures
        spec_le_u32(s.skip(k)) == x,
{
    lemma_u32_le_round_trip(x);
    assert(s.skip(k)[0] == s.subrange(k, k + 4)[0]);
    assert(s.skip(k)[1] == s.subrange(k, k + 4)[1]);
    assert(s.skip(k)[2] == s.subrange(k, k + 4)[2]);
    assert(s.skip(k)[3] == s.subrange(k, k + 4)[3]);
}

/// The signed reading of the unsigned form of a number is the number.
pub proof fn lemma_signed_unsigned(v: int, modulus: int)
    requires
        modulus > 0,
        modulus % 2 == 0,
        -(modulus / 2) <= v < modulus / 2,
    ensures
        0 <= as_unsigned(v, modulus) < modulus,
        as_signed(as_unsigned(v, modulus), modulus) == v,
{
}

/// The low bits of a number, read as a signed number, lie in the range of
/// their width, and a number within that range keeps its value.
pub proof fn lemma_wrap_signed_range(v: int, modulus: int)
    requires
        modulus > 0,
        modulus % 2 == 0,
    ensures
        -(modulus / 2) <= wrap_signed(v, modulus) < modulus / 2,
        -(modulus / 2) <= v < modulus / 2 ==> wrap_signed(v, modulus) == v,
{
    if -(modulus / 2) <= v < modulus / 2 {
        if v < 0 {
            assert((v + modulus) % modulus == v % modulus) by (nonlinear_arith)
                requires
                    modulus > 0,
            ;
            assert((v + modulus) % modulus == v + modulus) by (nonlinear_arith)
                requires
                    0 <= v + modulus < modulus,
            ;
        } else {
            assert(v % modulus == v) by (nonlinear_arith)
                requires
                    0 <= v < modulus,
            ;
        }
    }
    assert(0 <= v % modulus < modulus) by (nonlinear_arith)
        requires
            modulus > 0,
    ;
}

/// The number that two bytes hold, least significant first.
pub fn u16_from_le_bytes(b: [u8; 2]) -> (v: u16)
    ensures
        v as int == spec_le_u16(b@),
{
    (b[0] as u16) + (b[1] as u16) * 0x100
}

/// The number that four bytes hold, least significant first.
pub fn u32_from_le_bytes(b: [u8; 4]) -> (v: u32)
    ensures
        v as int == spec_le_u32(b@),
{
    (b[0] as u32) + (b[1] as u32) * 0x100 + (b[2] as u32) * 0x1_0000 + (b[3] as u32) * 0x100_0000
}

/// The number that eight bytes hold, least significant first.
pub fn u64_from_le_bytes(b: [u8; 8]) -> (v: u64)
    ensures
        v as int == spec_le_u64(b@),
{
    let lo: u32 = u32_from_le_bytes([b[0], b[1], b[2], b[3]]);
    let hi: u32 = u32_from_le_bytes([b[4], b[5], b[6], b[7]]);
    assert(b@.subrange(0, 4) =~= seq![b[0], b[1], b[2], b[3]]);
    assert(b@.subrange(4, 8) =~= seq![b[4], b[5], b[6], b[7]]);
    (lo as u64) + (hi as u64) * 0x1_0000_0000
}

/// The signed number that two bytes hold, least significant first.
pub fn i16_from_le_bytes(b: [u8; 2]) -> (v: i16)
    ensures
        v as int == as_signed(spec_le_u16(b@), 0x1_0000),
{
    let u: u16 = u16_from_le_bytes(b);
    if u >= 0x8000 {
        (u as i32 - 0x1_0000) as i16
    } else {
        u as i16
    }
}

/// The signed number that four bytes hold, least significant first.
pub fn i32_from_le_bytes(b: [u8; 4]) -> (v: i32)
    ensures
        v as int == as_signed(spec_le_u32(b@), 0x1_0000_0000),
{
    let u: u32 = u32_from_le_bytes(b);
    if u >= 0x8000_0000 {
        (u as i64 - 0x1_0000_0000) as i32
    } else {
        u as i32
    }
}

/// Reads three bytes as a signed 24-bit number and widens it to 32 bits; the
/// top bit of the third byte is the sign.
pub fn i32_from_le_bytes_24(b: [u8; 3]) -> (v: i32)
    ensures
        v as int == as_signed(spec_le_u24(b@), 0x100_0000),
{
    let u: i32 = (b[0] as i32) + (b[1] as i32) * 0x100 + (b[2] as i32) * 0x1_0000;
    if b[2] >= 0x80 {
        u - 0x100_0000
    } else {
        u
    }
}

/// The number that two bytes hold, most significant first.
pub fn u16_from_be_bytes(b: [u8; 2]) -> (v: u16)
    ensures
        v as int == spec_be_u16(b@),
{
    (b[0] as u16) * 0x100 + (b[1] as u16)
}

/// The number that four bytes hold, most significant first.
pub fn u32_from_be_bytes(b: [u8; 4]) -> (v: u32)
    ensures
        v as int == spec_be_u32(b@),
{
    (b[0] as u32) * 0x100_0000 + (b[1] as u32) * 0x1_0000 + (b[2] as u32) * 0x100 + (b[3] as u32)
}

/// The signed number that two bytes hold, most significant first.
pub fn i16_from_be_bytes(b: [u8; 2]) -> (v: i16)
    ensures
        v as int == as_signed(spec_be_u16(b@), 0x1_0000),
{
    let u: u16 = u16_from_be_bytes(b);
    if u >= 0x8000 {
        (u as i32 - 0x1_0000) as i16
    } else {
        u as i16
    }
}

/// The signed number that four bytes hold, most significant first.
pub fn i32_from_be_bytes(b: [u8; 4]) -> (v: i32)
    ensures
        v as int == as_signed(spec_be_u32(b@), 0x1_0000_0000),
{
    let u: u32 = u32_from_be_bytes(b);
    if u >= 0x8000_0000 {
        (u as i64 - 0x1_0000_0000) as i32
    } else {
        u as i32
    }
}

/// The two bytes of `x`, least significant first.
pub fn u16_to_le_bytes(x: u16) -> (b: [u8; 2])
    ensures
        b@ == spec_u16_le_bytes(x as int),
{
    let b: [u8; 2] = [(x % 0x100) as u8, (x / 0x100) as u8];
    assert(b@ =~= spec_u16_le_bytes(x as int));
    b
}

/// The four bytes of `x`, least significant first.
pub fn u32_to_le_bytes(x: u32) -> (b: [u8; 4])
    ensures
        b@ == spec_u32_le_bytes(x as int),
{
    let b: [u8; 4] = [
        (x % 0x100) as u8,
        (x / 0x100 % 0x100) as u8,
        (x / 0x1_0000 % 0x100) as u8,
        (x / 0x100_0000) as u8,
    ];
    assert(b@ =~= spec_u32_le_bytes(x as int));
    b
}

/// The eight bytes of `x`, least significant first.
pub fn u64_to_le_bytes(x: u64) -> (b: [u8; 8])
    ensures
        b@ == spec_u64_le_bytes(x as int),
{
    let lo: [u8; 4] = u32_to_le_bytes((x % 0x1_0000_0000) as u32);
    let hi: [u8; 4] = u32_to_le_bytes((x / 0x1_0000_0000) as u32);
    let b: [u8; 8] = [lo[0], lo[1], lo[2], lo[3], hi[0], hi[1], hi[2], hi[3]];
    assert(b@ =~= spec_u64_le_bytes(x as int));
    b
}

/// The unsigned 16-bit number with the bits of `x`.
pub fn i16_to_u16(x: i16) -> (u: u16)
    ensures
        u as int == as_unsigned(x as int, 0x1_0000),
{
    if x < 0 {
        (x as i32 + 0x1_0000) as u16
    } else {
        x as u16
    }
}

/// The unsigned 32-bit number with the bits of `x`.
pub fn i32_to_u32(x: i32) -> (u: u32)
    ensures
        u as int == as_unsigned(x as int, 0x1_0000_0000),
{
    if x < 0 {
        (x as i64 + 0x1_0000_0000) as u32
    } else {
        x as u32
    }
}

/// The two bytes of `x` in two's complement, least significant first.
pub fn i16_to_le_bytes(x: i16) -> (b: [u8; 2])
    ensures
        b@ == spec_u16_le_bytes(as_unsigned(x as int, 0x1_0000)),
{
    u16_to_le_bytes(i16_to_u16(x))
}

/// The four bytes of `x` in two's complement, least significant first.
pub fn i32_to_le_bytes(x: i32) -> (b: [u8; 4])
    ensures
        b@ == spec_u32_le_bytes(as_unsigned(x as int, 0x1_0000_0000)),
{
    u32_to_le_bytes(i32_to_u32(x))
}

/// The three low bytes of `x`, least significant first.
pub fn i32_to_le_bytes_24(x: i32) -> (b: [u8; 3])
    ensures
        b@ == spec_u24_le_bytes(as_unsigned(x as int, 0x1_0000_0000)),
{
    let u: u32 = i32_to_u32(x);
    let b: [u8; 3] = [(u % 0x100) as u8, (u / 0x100 % 0x100) as u8, (u / 0x1_0000 % 0x100) as u8];
    assert(b@ =~= spec_u24_le_bytes(u as int));
    b
}

/// Keeps the low 16 bits of `x`, as the cast of a 32-bit to a 16-bit signed
/// integer does.
pub fn i32_to_i16_wrapping(x: i32) -> (v: i16)
    ensures
        v as int == wrap_signed(x as int, 0x1_0000),
{
    let u: u32 = i32_to_u32(x);
    let low: u32 = u % 0x1_0000;
    if low >= 0x8000 {
        (low as i32 - 0x1_0000) as i16
    } else {
        low as i16
    }
}

/// Keeps the low 8 bits of `x`, as the cast of a 32-bit to an 8-bit signed
/// integer does.
pub fn i32_to_i8_wrapping(x: i32) -> (v: i8)
    ensures
        v as int == wrap_signed(x as int, 0x100),
{
    let u: u32 = i32_to_u32(x);
    let low: u32 = u % 0x100;
    if low >= 0x80 {
        (low as i32 - 0x100) as i8
    } else {
        low as i8
    }
}

} // verus!
