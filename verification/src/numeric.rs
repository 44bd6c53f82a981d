//! Conversions between the engine's signed 32-bit values and the raw little-endian
//! bytes stored in machine memory, together with the round-trip lemmas the
//! machine-state contracts are proved from.

use vstd::prelude::*;

verus! {

/// Two's-complement image of a signed 32-bit value as an unsigned one.
pub open spec fn u32_of_i32(v: i32) -> u32 {
    if v >= 0 {
        v as u32
    } else {
        (v + 0x1_0000_0000) as u32
    }
}

/// Signed reading of an unsigned 32-bit value (two's complement).
pub open spec fn i32_of_u32(u: u32) -> i32 {
    if u < 0x8000_0000 {
        u as i32
    } else {
        (u - 0x1_0000_0000) as i32
    }
}

/// The low 16 bits of a value, as stored by 16-bit writes.
pub open spec fn u16_of_i32(v: i32) -> u16 {
    (u32_of_i32(v) % 0x1_0000) as u16
}

/// The low byte of a value, as stored by 8-bit writes.
pub open spec fn u8_of_i32(v: i32) -> u8 {
    (u32_of_i32(v) % 0x100) as u8
}

/// Signed reading of an unsigned 16-bit value (two's complement).
pub open spec fn i16_of_u16(x: u16) -> i16 {
    if x < 0x8000 {
        x as i16
    } else {
        (x - 0x1_0000) as i16
    }
}

/// Sign extension of a 16-bit stored value back to the engine width.
pub open spec fn sext16(x: u16) -> i32 {
    if x < 0x8000 {
        x as i32
    } else {
        (x - 0x1_0000) as i32
    }
}

/// Little-endian pairing of two bytes.
pub open spec fn le16(b0: u8, b1: u8) -> u16 {
    (b0 + 0x100 * b1) as u16
}

/// Little-endian pairing of four bytes.
pub open spec fn le32(b0: u8, b1: u8, b2: u8, b3: u8) -> u32 {
    (b0 + 0x100 * b1 + 0x1_0000 * b2 + 0x100_0000 * b3) as u32
}

/// Byte `k` (0 = lowest) of a 16-bit value.
pub open spec fn u16_byte0(x: u16) -> u8 {
    (x % 0x100) as u8
}

pub open spec fn u16_byte1(x: u16) -> u8 {
    (x / 0x100) as u8
}

/// Bytes of a 32-bit value, little-endian.
pub open spec fn u32_byte0(x: u32) -> u8 {
    (x % 0x100) as u8
}

pub open spec fn u32_byte1(x: u32) -> u8 {
    ((x / 0x100) % 0x100) as u8
}

pub open spec fn u32_byte2(x: u32) -> u8 {
    ((x / 0x1_0000) % 0x100) as u8
}

pub open spec fn u32_byte3(x: u32) -> u8 {
    (x / 0x100_0000) as u8
}

/// Exec twin of `u32_of_i32`.
pub fn to_unsigned(v: i32) -> (r: u32)
    ensures
        r == u32_of_i32(v),
{
    let w: i64 = v as i64;
    if w >= 0 {
        w as u32
    } else {
        (w + 0x1_0000_0000i64) as u32
    }
}

/// Exec twin of `i32_of_u32`.
pub fn to_signed(u: u32) -> (r: i32)
    ensures
        r == i32_of_u32(u),
{
    let w: i64 = u as i64;
    if w < 0x8000_0000i64 {
        w as i32
    } else {
        (w - 0x1_0000_0000i64) as i32
    }
}

/// Converting to the unsigned image and back is the identity.
pub proof fn lemma_i32_u32_roundtrip(v: i32)
    ensures
        i32_of_u32(u32_of_i32(v)) == v,
{
}

/// A 16-bit store followed by sign extension recovers any value of 16-bit range.
pub proof fn lemma_sext16_roundtrip(v: i32)
    requires
        -0x8000 <= v < 0x8000,
    ensures
        sext16(u16_of_i32(v)) == v,
{
    if v >= 0 {
        assert(u32_of_i32(v) == v as u32);
        assert(u32_of_i32(v) % 0x1_0000 == v as u32 % 0x1_0000);
    } else {
        let u = (v + 0x1_0000_0000) as u32;
        assert(u32_of_i32(v) == u);
        assert(u % 0x1_0000 == (v + 0x1_0000) % 0x1_0000) by {
            assert(u == (v + 0x1_0000) + 0x1_0000 * 0xffff);
            vstd::arithmetic::div_mod::lemma_mod_multiples_vanish(
                0xffff,
                v + 0x1_0000,
                0x1_0000,
            );
        }
    }
}

/// Splitting a 16-bit value into bytes and pairing them back is the identity.
pub proof fn lemma_le16_roundtrip(x: u16)
    ensures
        le16(u16_byte0(x), u16_byte1(x)) == x,
{
    assert(x % 0x100 + 0x100 * (x / 0x100) == x) by {
        vstd::arithmetic::div_mod::lemma_fundamental_div_mod(x as int, 0x100);
    }
}

/// Splitting a 32-bit value into bytes and pairing them back is the identity.
pub proof fn lemma_le32_roundtrip(x: u32)
    ensures
        le32(u32_byte0(x), u32_byte1(x), u32_byte2(x), u32_byte3(x)) == x,
{
    let q1 = x / 0x100;
    let q2 = x / 0x1_0000;
    let q3 = x / 0x100_0000;
    assert(q1 / 0x100 == q2 && q2 / 0x100 == q3 && q3 < 0x100) by {
        vstd::arithmetic::div_mod::lemma_div_denominator(x as int, 0x100, 0x100);
        vstd::arithmetic::div_mod::lemma_div_denominator(x as int, 0x1_0000, 0x100);
    }
    assert(x % 0x100 + 0x100 * (q1 % 0x100) + 0x1_0000 * (q2 % 0x100) + 0x100_0000 * q3 == x) by {
        vstd::arithmetic::div_mod::lemma_fundamental_div_mod(x as int, 0x100);
        vstd::arithmetic::div_mod::lemma_fundamental_div_mod(q1 as int, 0x100);
        vstd::arithmetic::div_mod::lemma_fundamental_div_mod(q2 as int, 0x100);
    }
}

/// The two stored bytes of a 16-bit write, and the four of a 32-bit write,
/// agree where they overlap: the low half of a 32-bit value stores the same
/// two bytes a 16-bit store of it would.
pub proof fn lemma_u32_low_half(x: u32)
    ensures
        u32_byte0(x) == u16_byte0((x % 0x1_0000) as u16),
        u32_byte1(x) == u16_byte1((x % 0x1_0000) as u16),
        le16(u32_byte0(x), u32_byte1(x)) == x % 0x1_0000,
        le16(u32_byte2(x), u32_byte3(x)) == x / 0x1_0000,
{
    let lo = (x % 0x1_0000) as u16;
    assert(x % 0x1_0000 % 0x100 == x % 0x100) by {
        vstd::arithmetic::div_mod::lemma_mod_mod(x as int, 0x100, 0x100);
    }
    assert(lo / 0x100 == (x / 0x100) % 0x100) by {
        vstd::arithmetic::div_mod::lemma_truncate_middle(x as int, 0x100, 0x100);
        vstd::arithmetic::div_mod::lemma_div_denominator(x as int, 0x100, 0x100);
        vstd::arithmetic::div_mod::lemma_fundamental_div_mod(x as int, 0x1_0000);
        assert((x % 0x1_0000) / 0x100 == ((x / 0x1_0000) * 0x1_0000 + x % 0x1_0000) / 0x100 % 0x100)
            by (nonlinear_arith);
    }
    lemma_le16_roundtrip(lo);
    assert(le16(u32_byte2(x), u32_byte3(x)) == x / 0x1_0000) by {
        vstd::arithmetic::div_mod::lemma_div_denominator(x as int, 0x1_0000, 0x100);
        vstd::arithmetic::div_mod::lemma_fundamental_div_mod((x / 0x1_0000) as int, 0x100);
    }
}

} // verus!
