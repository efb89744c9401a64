use vstd::prelude::*;
use vstd::arithmetic::div_mod::{lemma_mod_multiples_vanish, lemma_small_mod};

verus! {

/// The two's-complement reading of a byte pattern.
pub open spec fn sgn(b: u8) -> int {
    if b < 128 {
        b as int
    } else {
        b - 256
    }
}

/// The byte pattern of an integer taken modulo 256.
pub open spec fn wrap8(x: int) -> u8 {
    (x % 256) as u8
}

/// Absolute value.
pub open spec fn iabs(x: int) -> int {
    if x < 0 {
        -x
    } else {
        x
    }
}

/// Division truncating toward zero, as machine signed division does.
/// Unspecified for `b == 0`.
pub open spec fn tdiv(a: int, b: int) -> int
    recommends
        b != 0,
{
    if (a < 0) == (b < 0) {
        iabs(a) / iabs(b)
    } else {
        -(iabs(a) / iabs(b))
    }
}

/// The operand value a sign flag selects: the two's-complement reading when
/// the flag is set, the raw byte otherwise.
pub open spec fn operand(signed: bool, b: u8) -> int {
    if signed {
        sgn(b)
    } else {
        b as int
    }
}

/// Addition under the sign-mode matrix. Both operands signed: 8-bit wrapping
/// two's-complement addition. Mixed or unsigned modes: computed in a wide
/// intermediate and truncated back to 8 bits. In every mode the result byte
/// is the sum of the selected operand values, modulo 256.
pub open spec fn add_bytes(s1: bool, s2: bool, d1: u8, d2: u8) -> u8 {
    wrap8(operand(s1, d1) + operand(s2, d2))
}

/// Subtraction under the sign-mode matrix; see `add_bytes`.
pub open spec fn sub_bytes(s1: bool, s2: bool, d1: u8, d2: u8) -> u8 {
    wrap8(operand(s1, d1) - operand(s2, d2))
}

/// Multiplication under the sign-mode matrix; see `add_bytes`.
pub open spec fn mul_bytes(s1: bool, s2: bool, d1: u8, d2: u8) -> u8 {
    wrap8(operand(s1, d1) * operand(s2, d2))
}

/// Division under the sign-mode matrix: truncating division of the selected
/// operand values, wrapped to a byte. Unspecified for a zero divisor byte
/// (the execution engine faults on it first).
pub open spec fn div_bytes(s1: bool, s2: bool, d1: u8, d2: u8) -> u8
    recommends
        d2 != 0,
{
    wrap8(tdiv(operand(s1, d1), operand(s2, d2)))
}

/// Logical shift left by one bit.
pub open spec fn shl_byte(d: u8) -> u8 {
    wrap8(2 * d)
}

/// Logical shift right by one bit (the sign bit is not preserved).
pub open spec fn shr_byte(d: u8) -> u8 {
    d / 2
}

/// Rotate left by one bit.
pub open spec fn rol_byte(d: u8) -> u8 {
    wrap8(2 * d + d / 128)
}

/// Rotate right by one bit.
pub open spec fn ror_byte(d: u8) -> u8 {
    (d / 2 + 128 * (d % 2)) as u8
}

/// The selected operand value and the raw byte agree modulo 256, so the
/// wrapped result of a sum is the same whichever reading the flags pick.
proof fn lemma_wrap_add_mode(s1: bool, s2: bool, d1: u8, d2: u8)
    ensures
        add_bytes(s1, s2, d1, d2) == wrap8(d1 + d2),
{
    let v1 = operand(s1, d1);
    let v2 = operand(s2, d2);
    let k = (d1 + d2 - (v1 + v2)) / 256;
    assert(v1 + v2 == 256 * (-k) + (d1 + d2));
    lemma_mod_multiples_vanish(-k, d1 + d2, 256);
}

/// As `lemma_wrap_add_mode`, for differences.
proof fn lemma_wrap_sub_mode(s1: bool, s2: bool, d1: u8, d2: u8)
    ensures
        sub_bytes(s1, s2, d1, d2) == wrap8(d1 - d2),
{
    let v1 = operand(s1, d1);
    let v2 = operand(s2, d2);
    let k = (d1 - d2 - (v1 - v2)) / 256;
    assert(v1 - v2 == 256 * (-k) + (d1 - d2));
    lemma_mod_multiples_vanish(-k, d1 - d2, 256);
}

/// As `lemma_wrap_add_mode`, for products.
proof fn lemma_wrap_mul_mode(s1: bool, s2: bool, d1: u8, d2: u8)
    ensures
        mul_bytes(s1, s2, d1, d2) == wrap8(d1 * d2),
{
    let v1 = operand(s1, d1);
    let v2 = operand(s2, d2);
    assert(v1 * v2 == 256 * ((v1 - d1) * v2 / 256 * 1 + d1 * (v2 - d2) / 256) + d1 * d2)
        by (nonlinear_arith)
        requires
            v1 == d1 || v1 == d1 - 256,
            v2 == d2 || v2 == d2 - 256,
    ;
    let k = (v1 - d1) * v2 / 256 * 1 + d1 * (v2 - d2) / 256;
    lemma_mod_multiples_vanish(k, d1 * d2, 256);
}

/// Bitwise AND of the two loaded bytes.
pub fn alu_and(d1: u8, d2: u8) -> (r: u8)
    ensures
        r == d1 & d2,
{
    d1 & d2
}

/// Bitwise OR of the two loaded bytes.
pub fn alu_or(d1: u8, d2: u8) -> (r: u8)
    ensures
        r == d1 | d2,
{
    d1 | d2
}

/// Bitwise complement of the loaded byte.
pub fn alu_not(d1: u8) -> (r: u8)
    ensures
        r == !d1,
{
    !d1
}

/// Addition under the sign-mode matrix.
pub fn alu_add(s1: bool, s2: bool, d1: u8, d2: u8) -> (r: u8)
    ensures
        r == add_bytes(s1, s2, d1, d2),
{
    proof {
        lemma_wrap_add_mode(s1, s2, d1, d2);
        lemma_small_mod((d1 + d2) as nat % 256, 256);
    }
    ((d1 as u16 + d2 as u16) % 256) as u8
}

/// Subtraction under the sign-mode matrix.
pub fn alu_sub(s1: bool, s2: bool, d1: u8, d2: u8) -> (r: u8)
    ensures
        r == sub_bytes(s1, s2, d1, d2),
{
    proof {
        lemma_wrap_sub_mode(s1, s2, d1, d2);
        lemma_mod_multiples_vanish(1, d1 - d2, 256);
    }
    ((d1 as u16 + 256 - d2 as u16) % 256) as u8
}

/// Multiplication under the sign-mode matrix.
pub fn alu_mul(s1: bool, s2: bool, d1: u8, d2: u8) -> (r: u8)
    ensures
        r == mul_bytes(s1, s2, d1, d2),
{
    proof {
        lemma_wrap_mul_mode(s1, s2, d1, d2);
        assert(d1 as int * d2 as int <= 255 * 255) by (nonlinear_arith)
            requires
                d1 <= 255,
                d2 <= 255,
        ;
    }
    ((d1 as u16 * d2 as u16) % 256) as u8
}

/// Division under the sign-mode matrix. The divisor byte must be nonzero;
/// the execution engine raises `DivideByZero` before calling this.
pub fn alu_div(s1: bool, s2: bool, d1: u8, d2: u8) -> (r: u8)
    requires
        d2 != 0,
    ensures
        r == div_bytes(s1, s2, d1, d2),
{
    let neg1 = s1 && d1 >= 128;
    let neg2 = s2 && d2 >= 128;
    let abs1: u16 = if neg1 {
        256 - d1 as u16
    } else {
        d1 as u16
    };
    let abs2: u16 = if neg2 {
        256 - d2 as u16
    } else {
        d2 as u16
    };
    let q: u16 = abs1 / abs2;
    proof {
        assert(abs1 == iabs(operand(s1, d1)));
        assert(abs2 == iabs(operand(s2, d2)));
        assert(q == iabs(operand(s1, d1)) / iabs(operand(s2, d2)));
        if neg1 != neg2 {
            if q == 0 {
                assert(tdiv(operand(s1, d1), operand(s2, d2)) == 0);
            } else {
                lemma_mod_multiples_vanish(1, -(q as int), 256);
                lemma_small_mod((256 - q) as nat, 256);
            }
        } else {
            lemma_small_mod(q as nat, 256);
        }
    }
    if neg1 != neg2 {
        ((256 - q) % 256) as u8
    } else {
        q as u8
    }
}

/// Logical shift left by one bit.
pub fn alu_shl(d1: u8) -> (r: u8)
    ensures
        r == shl_byte(d1),
{
    proof {
        lemma_small_mod((2 * d1) as nat % 256, 256);
    }
    ((d1 as u16 * 2) % 256) as u8
}

/// Logical shift right by one bit.
pub fn alu_shr(d1: u8) -> (r: u8)
    ensures
        r == shr_byte(d1),
{
    d1 / 2
}

/// Rotate left by one bit.
pub fn alu_rol(d1: u8) -> (r: u8)
    ensures
        r == rol_byte(d1),
{
    proof {
        lemma_small_mod((2 * d1 + d1 / 128) as nat % 256, 256);
    }
    ((d1 as u16 * 2 + d1 as u16 / 128) % 256) as u8
}

/// Rotate right by one bit.
pub fn alu_ror(d1: u8) -> (r: u8)
    ensures
        r == ror_byte(d1),
{
    d1 / 2 + 128 * (d1 % 2)
}

} // verus!
