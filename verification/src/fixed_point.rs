//! Signed 32-bit fixed-point numbers held as their bits: `I16F16`,
//! `I20F12`, `I26F6` and `I28F4` (16, 12, 6 and 4 fractional bits). The
//! arithmetic is done by the `fixed` crate; each operation states what it
//! computes on the bits and requires the inputs on which it would overflow
//! (and panic) to be left out. The checked operations on `I16F16` are
//! verified on top of them.
use fixed::types::I16F16 as FixedI16F16;
use fixed::types::I20F12 as FixedI20F12;
use fixed::types::I26F6 as FixedI26F6;
use fixed::types::I28F4 as FixedI28F4;
use vstd::arithmetic::power2::pow2;
use vstd::prelude::*;

verus! {

/// A fixed-point number with 16 fractional bits: the value is
/// `bits / 65536`.
#[derive(PartialEq, Eq, Structural, Debug, Clone, Copy)]
pub struct I16F16 {
    pub bits: i32,
}

/// A fixed-point number with 4 fractional bits: the value is `bits / 16`.
#[derive(PartialEq, Eq, Structural, Debug, Clone, Copy)]
pub struct I28F4 {
    pub bits: i32,
}

/// A fixed-point number with 12 fractional bits: the value is
/// `bits / 4096`.
#[derive(PartialEq, Eq, Structural, Debug, Clone, Copy)]
pub struct I20F12 {
    pub bits: i32,
}

/// A fixed-point number with 6 fractional bits: the value is `bits / 64`.
#[derive(PartialEq, Eq, Structural, Debug, Clone, Copy)]
pub struct I26F6 {
    pub bits: i32,
}

pub open spec fn fits_i32(v: int) -> bool {
    i32::MIN <= v <= i32::MAX
}

pub open spec fn fits_i64(v: int) -> bool {
    i64::MIN <= v <= i64::MAX
}

/// Integer division that rounds towards zero.
pub open spec fn div_toward_zero(a: int, b: int) -> int {
    if a >= 0 {
        a / b
    } else {
        -((-a) / b)
    }
}

/// The integer part of a number with 16 fractional bits, rounded towards
/// minus infinity.
pub open spec fn floor_of(bits: i32) -> int {
    bits as int / 0x10000
}

/// The number of binary digits of `n`.
pub open spec fn bit_length(n: nat) -> nat
    decreases n,
{
    if n == 0 {
        0
    } else {
        1 + bit_length(n / 2)
    }
}

/// Calls `fixed`'s `to_num::<i32>` on `I16F16`, which discards the
/// fractional bits (rounding towards minus infinity); every value fits.
#[verifier::external_body]
fn i16f16_to_i32(bits: i32) -> (r: i32)
    ensures
        r == floor_of(bits),
{
    FixedI16F16::from_bits(bits).to_num::<i32>()
}

/// Calls `fixed`'s `to_num::<u16>` on `I16F16`: the fractional bits are
/// discarded (rounding towards minus infinity); a value that does not fit
/// panics with debug assertions, so it is left out.
#[verifier::external_body]
fn i16f16_to_u16(bits: i32) -> (r: u16)
    requires
        0 <= floor_of(bits) <= u16::MAX,
    ensures
        r == floor_of(bits),
{
    FixedI16F16::from_bits(bits).to_num::<u16>()
}

/// Calls `I16F16::from_num` on an `i32`: the bits are the value times
/// 65536; a value that does not fit panics with debug assertions.
#[verifier::external_body]
fn i16f16_from_i32(v: i32) -> (r: i32)
    requires
        fits_i32(v * 0x10000),
    ensures
        r == v * 0x10000,
{
    FixedI16F16::from_num(v).to_bits()
}

/// `I16F16` addition: adds the bits (overflow panics with debug
/// assertions).
#[verifier::external_body]
fn i16f16_add(a: i32, b: i32) -> (r: i32)
    requires
        fits_i32(a + b),
    ensures
        r == a + b,
{
    (FixedI16F16::from_bits(a) + FixedI16F16::from_bits(b)).to_bits()
}

/// `I16F16` subtraction: subtracts the bits.
#[verifier::external_body]
fn i16f16_sub(a: i32, b: i32) -> (r: i32)
    requires
        fits_i32(a - b),
    ensures
        r == a - b,
{
    (FixedI16F16::from_bits(a) - FixedI16F16::from_bits(b)).to_bits()
}

/// `I16F16` negation: negates the bits.
#[verifier::external_body]
fn i16f16_neg(a: i32) -> (r: i32)
    requires
        a != i32::MIN,
    ensures
        r == -a,
{
    (-FixedI16F16::from_bits(a)).to_bits()
}

/// `I16F16` multiplication. `fixed` multiplies the bits of one factor by
/// the bits of the other shifted left by 16 in `i64` (overflow there panics
/// with debug assertions) and keeps the upper 32 bits: the product rounded
/// towards minus infinity.
#[verifier::external_body]
fn i16f16_mul(a: i32, b: i32) -> (r: i32)
    requires
        fits_i64(a * b * 0x10000),
    ensures
        r == (a * b) / 0x10000,
{
    (FixedI16F16::from_bits(a) * FixedI16F16::from_bits(b)).to_bits()
}

/// `I16F16` division. `fixed` divides the bits shifted left by 16 by the
/// divisor's bits in `i64`, rounding towards zero; a zero divisor panics
/// and a quotient that does not fit panics with debug assertions.
#[verifier::external_body]
fn i16f16_div(a: i32, b: i32) -> (r: i32)
    requires
        b != 0,
        fits_i32(div_toward_zero(a * 0x10000, b as int)),
    ensures
        r == div_toward_zero(a * 0x10000, b as int),
{
    (FixedI16F16::from_bits(a) / FixedI16F16::from_bits(b)).to_bits()
}

/// `I16F16 / i32`: `fixed` divides the bits by the integer with Rust's
/// `/`, rounding towards zero (a zero divisor panics; only positive
/// divisors are taken here).
#[verifier::external_body]
fn i16f16_div_i32(bits: i32, d: i32) -> (r: i32)
    requires
        d > 0,
    ensures
        r == div_toward_zero(bits as int, d as int),
{
    (FixedI16F16::from_bits(bits) / d).to_bits()
}

/// `I20F12::from_num` of an `i32`: the bits are the value times 4096; a
/// value that does not fit panics with debug assertions.
#[verifier::external_body]
fn i20f12_from_i32(v: i32) -> (r: i32)
    requires
        fits_i32(v * 4096),
    ensures
        r == v * 4096,
{
    FixedI20F12::from_num(v).to_bits()
}

/// `I20F12::from_num` of an `I16F16`: the four extra fractional bits are
/// discarded (rounding towards minus infinity); every value fits.
#[verifier::external_body]
fn i20f12_from_i16f16(bits: i32) -> (r: i32)
    ensures
        r == bits as int / 16,
{
    FixedI20F12::from_num(FixedI16F16::from_bits(bits)).to_bits()
}

/// `I20F12` addition: adds the bits.
#[verifier::external_body]
fn i20f12_add(a: i32, b: i32) -> (r: i32)
    requires
        fits_i32(a + b),
    ensures
        r == a + b,
{
    (FixedI20F12::from_bits(a) + FixedI20F12::from_bits(b)).to_bits()
}

/// `I20F12` subtraction: subtracts the bits.
#[verifier::external_body]
fn i20f12_sub(a: i32, b: i32) -> (r: i32)
    requires
        fits_i32(a - b),
    ensures
        r == a - b,
{
    (FixedI20F12::from_bits(a) - FixedI20F12::from_bits(b)).to_bits()
}

/// `I20F12` negation: negates the bits.
#[verifier::external_body]
fn i20f12_neg(a: i32) -> (r: i32)
    requires
        a != i32::MIN,
    ensures
        r == -a,
{
    (-FixedI20F12::from_bits(a)).to_bits()
}

/// `I20F12` multiplication: the bits of one factor times the bits of the
/// other shifted left by 20, in `i64`, upper 32 bits kept: the product
/// rounded towards minus infinity.
#[verifier::external_body]
fn i20f12_mul(a: i32, b: i32) -> (r: i32)
    requires
        fits_i64(a * b * 0x10_0000),
    ensures
        r == (a * b) / 4096,
{
    (FixedI20F12::from_bits(a) * FixedI20F12::from_bits(b)).to_bits()
}

/// `I20F12` division: the bits shifted left by 12 divided by the divisor's
/// bits in `i64`, rounding towards zero; a zero divisor panics, a quotient
/// that does not fit panics with debug assertions.
#[verifier::external_body]
fn i20f12_div(a: i32, b: i32) -> (r: i32)
    requires
        b != 0,
        fits_i32(div_toward_zero(a * 4096, b as int)),
    ensures
        r == div_toward_zero(a * 4096, b as int),
{
    (FixedI20F12::from_bits(a) / FixedI20F12::from_bits(b)).to_bits()
}

/// `I26F6::from_num` of a `u32`: the bits are the value times 64; a value
/// of `2^25` or more does not fit and panics with debug assertions.
#[verifier::external_body]
fn i26f6_from_u32(v: u32) -> (r: i32)
    requires
        v < 0x200_0000,
    ensures
        r == v * 64,
{
    FixedI26F6::from_num(v).to_bits()
}

/// `I26F6` multiplication: the bits of one factor times the bits of the
/// other shifted left by 26, in `i64`, upper 32 bits kept: the product
/// rounded towards minus infinity.
#[verifier::external_body]
fn i26f6_mul(a: i32, b: i32) -> (r: i32)
    requires
        fits_i64(a * b * 0x400_0000),
    ensures
        r == (a * b) / 64,
{
    (FixedI26F6::from_bits(a) * FixedI26F6::from_bits(b)).to_bits()
}

/// `I26F6` addition: adds the bits.
#[verifier::external_body]
fn i26f6_add(a: i32, b: i32) -> (r: i32)
    requires
        fits_i32(a + b),
    ensures
        r == a + b,
{
    (FixedI26F6::from_bits(a) + FixedI26F6::from_bits(b)).to_bits()
}

/// `I16F16::leading_zeros`: the leading zeros of the bits, which is 32
/// minus the bit length for a positive number.
#[verifier::external_body]
fn i16f16_leading_zeros(bits: i32) -> (r: u32)
    requires
        bits > 0,
    ensures
        r == 32 - bit_length(bits as nat),
{
    FixedI16F16::from_bits(bits).leading_zeros()
}

/// `I16F16 << k`: the bits shifted left (a result that does not fit, whose
/// high bits would be lost, is left out; `k >= 32` panics).
#[verifier::external_body]
fn i16f16_shl(bits: i32, k: u32) -> (r: i32)
    requires
        k < 32,
        fits_i32(bits * pow2(k as nat)),
    ensures
        r == bits * pow2(k as nat),
{
    (FixedI16F16::from_bits(bits) << k).to_bits()
}

/// `I16F16 >> k` on a non-negative number: the bits shifted right, which
/// rounds towards minus infinity.
#[verifier::external_body]
fn i16f16_shr(bits: i32, k: u32) -> (r: i32)
    requires
        k < 32,
        bits >= 0,
    ensures
        r == bits as int / pow2(k as nat) as int,
{
    (FixedI16F16::from_bits(bits) >> k).to_bits()
}

/// `I28F4::from_num` of an `I16F16`: the 12 extra fractional bits are
/// discarded (rounding towards minus infinity); every value fits.
#[verifier::external_body]
fn i28f4_from_i16f16(bits: i32) -> (r: i32)
    ensures
        r == bits as int / 0x1000,
{
    FixedI28F4::from_num(FixedI16F16::from_bits(bits)).to_bits()
}

/// `I16F16::from_num` of an `I28F4`: the bits are shifted left by 12; a
/// value that does not fit panics with debug assertions.
#[verifier::external_body]
fn i16f16_from_i28f4(bits: i32) -> (r: i32)
    requires
        fits_i32(bits * 0x1000),
    ensures
        r == bits * 0x1000,
{
    FixedI16F16::from_num(FixedI28F4::from_bits(bits)).to_bits()
}

/// `I28F4` addition: adds the bits.
#[verifier::external_body]
fn i28f4_add(a: i32, b: i32) -> (r: i32)
    requires
        fits_i32(a + b),
    ensures
        r == a + b,
{
    (FixedI28F4::from_bits(a) + FixedI28F4::from_bits(b)).to_bits()
}

/// `I28F4` subtraction: subtracts the bits.
#[verifier::external_body]
fn i28f4_sub(a: i32, b: i32) -> (r: i32)
    requires
        fits_i32(a - b),
    ensures
        r == a - b,
{
    (FixedI28F4::from_bits(a) - FixedI28F4::from_bits(b)).to_bits()
}

/// `I28F4` negation: negates the bits.
#[verifier::external_body]
fn i28f4_neg(a: i32) -> (r: i32)
    requires
        a != i32::MIN,
    ensures
        r == -a,
{
    (-FixedI28F4::from_bits(a)).to_bits()
}

/// `I28F4` multiplication: the bits of one factor times the bits of the
/// other shifted left by 28, in `i64`, upper 32 bits kept: the product
/// rounded towards minus infinity.
#[verifier::external_body]
fn i28f4_mul(a: i32, b: i32) -> (r: i32)
    requires
        fits_i64(a * b * 0x1000_0000),
    ensures
        r == (a * b) / 16,
{
    (FixedI28F4::from_bits(a) * FixedI28F4::from_bits(b)).to_bits()
}

/// `I28F4` division: the bits shifted left by 4 divided by the divisor's
/// bits in `i64`, rounding towards zero.
#[verifier::external_body]
fn i28f4_div(a: i32, b: i32) -> (r: i32)
    requires
        b != 0,
        fits_i32(div_toward_zero(a * 16, b as int)),
    ensures
        r == div_toward_zero(a * 16, b as int),
{
    (FixedI28F4::from_bits(a) / FixedI28F4::from_bits(b)).to_bits()
}

/// `I28F4::max`: the larger number, compared by the bits.
#[verifier::external_body]
fn i28f4_max(a: i32, b: i32) -> (r: i32)
    ensures
        r == (if a >= b {
            a
        } else {
            b
        }),
{
    FixedI28F4::from_bits(a).max(FixedI28F4::from_bits(b)).to_bits()
}

/// `I28F4::leading_zeros`: the leading zeros of the bits, which is 32
/// minus the bit length for a positive number.
#[verifier::external_body]
fn i28f4_leading_zeros(bits: i32) -> (r: u32)
    requires
        bits > 0,
    ensures
        r == 32 - bit_length(bits as nat),
{
    FixedI28F4::from_bits(bits).leading_zeros()
}

/// `I28F4 << k`: the bits shifted left (Rust's `<<` on `i32`, which panics
/// with debug assertions for `k >= 32`; bits shifted out are lost, so a
/// result that does not fit is left out).
#[verifier::external_body]
fn i28f4_shl(bits: i32, k: u32) -> (r: i32)
    requires
        k < 32,
        fits_i32(bits * pow2(k as nat)),
    ensures
        r == bits * pow2(k as nat),
{
    (FixedI28F4::from_bits(bits) << k).to_bits()
}

/// `I28F4 >> k` on a non-negative number: the bits shifted right, which
/// rounds towards minus infinity.
#[verifier::external_body]
fn i28f4_shr(bits: i32, k: u32) -> (r: i32)
    requires
        k < 32,
        bits >= 0,
    ensures
        r == bits as int / pow2(k as nat) as int,
{
    (FixedI28F4::from_bits(bits) >> k).to_bits()
}

/// `I28F4::from_num` of an `i32`: the bits are the value times 16.
#[verifier::external_body]
fn i28f4_from_i32(v: i32) -> (r: i32)
    requires
        fits_i32(v * 16),
    ensures
        r == v * 16,
{
    FixedI28F4::from_num(v).to_bits()
}

/// Dividing by a negative number negates the quotient.
pub proof fn lemma_div_by_negative(a: int, d: int)
    requires
        d > 0,
    ensures
        a / (-d) == -(a / d),
{
    vstd::arithmetic::div_mod::lemma_fundamental_div_mod(a, d);
    vstd::arithmetic::div_mod::lemma_fundamental_div_mod(a, -d);
    assert(a / (-d) == -(a / d)) by (nonlinear_arith)
        requires
            d > 0,
            a == d * (a / d) + (a % d),
            a == (-d) * (a / (-d)) + (a % (-d)),
            0 <= a % d < d,
            0 <= a % (-d) < d,
    ;
}

/// Rounding a quotient towards zero is dividing the magnitudes and giving
/// the result the sign of the product.
pub proof fn lemma_div_toward_zero_magnitudes(a: int, b: int)
    requires
        b != 0,
    ensures
        ({
            let q = (if a >= 0 { a } else { -a }) / (if b >= 0 { b } else { -b });
            &&& q >= 0
            &&& div_toward_zero(a, b) == (if (a < 0) != (b < 0) { -q } else { q })
        }),
{
    let ma = if a >= 0 { a } else { -a };
    let mb = if b >= 0 { b } else { -b };
    vstd::arithmetic::div_mod::lemma_div_pos_is_pos(ma, mb);
    if b < 0 {
        lemma_div_by_negative(ma, mb);
        if ma == 0 {
            assert(ma / mb == 0);
        }
    }
    if a < 0 && ma / mb == 0 {
        assert(-(ma / b) == 0) by {
            if b < 0 {
                lemma_div_by_negative(ma, mb);
            }
        }
    }
}

impl I16F16 {
    pub fn from_bits(bits: i32) -> (r: Self)
        ensures
            r.bits == bits,
    {
        I16F16 { bits }
    }

    /// The integer part, rounded towards minus infinity.
    pub fn to_i32(&self) -> (r: i32)
        ensures
            r == floor_of(self.bits),
    {
        i16f16_to_i32(self.bits)
    }

    /// The integer part as a `u16`, rounded towards minus infinity.
    pub fn to_u16(&self) -> (r: u16)
        requires
            0 <= floor_of(self.bits) <= u16::MAX,
        ensures
            r == floor_of(self.bits),
    {
        i16f16_to_u16(self.bits)
    }

    /// The number with this integer value.
    pub fn from_i32(v: i32) -> (r: Self)
        requires
            fits_i32(v * 0x10000),
        ensures
            r.bits == v * 0x10000,
    {
        I16F16 { bits: i16f16_from_i32(v) }
    }

    /// The same value with 12 more fractional bits.
    pub fn from_i28f4(x: I28F4) -> (r: Self)
        requires
            fits_i32(x.bits * 0x1000),
        ensures
            r.bits == x.bits * 0x1000,
    {
        I16F16 { bits: i16f16_from_i28f4(x.bits) }
    }

    pub fn add(self, other: Self) -> (r: Self)
        requires
            fits_i32(self.bits + other.bits),
        ensures
            r.bits == self.bits + other.bits,
    {
        I16F16 { bits: i16f16_add(self.bits, other.bits) }
    }

    pub fn sub(self, other: Self) -> (r: Self)
        requires
            fits_i32(self.bits - other.bits),
        ensures
            r.bits == self.bits - other.bits,
    {
        I16F16 { bits: i16f16_sub(self.bits, other.bits) }
    }

    pub fn neg(self) -> (r: Self)
        requires
            self.bits != i32::MIN,
        ensures
            r.bits == -self.bits,
    {
        I16F16 { bits: i16f16_neg(self.bits) }
    }

    /// The number divided by a positive integer, rounded towards zero.
    pub fn div_int(self, d: i32) -> (r: Self)
        requires
            d > 0,
        ensures
            r.bits == div_toward_zero(self.bits as int, d as int),
    {
        I16F16 { bits: i16f16_div_i32(self.bits, d) }
    }

    /// The sum, where it fits.
    pub fn checked_add(self, other: Self) -> (r: Option<Self>)
        ensures
            r is Some <==> fits_i32(self.bits + other.bits),
            r is Some ==> r->0.bits == self.bits + other.bits,
    {
        let sum: i64 = self.bits as i64 + other.bits as i64;
        if sum < i32::MIN as i64 || sum > i32::MAX as i64 {
            None
        } else {
            Some(self.add(other))
        }
    }

    /// The difference, where it fits.
    pub fn checked_sub(self, other: Self) -> (r: Option<Self>)
        ensures
            r is Some <==> fits_i32(self.bits - other.bits),
            r is Some ==> r->0.bits == self.bits - other.bits,
    {
        let diff: i64 = self.bits as i64 - other.bits as i64;
        if diff < i32::MIN as i64 || diff > i32::MAX as i64 {
            None
        } else {
            Some(self.sub(other))
        }
    }

    /// The product (rounded towards minus infinity), where `fixed` computes
    /// it without overflow.
    pub fn checked_mul(self, other: Self) -> (r: Option<Self>)
        ensures
            r is Some <==> fits_i64(self.bits * other.bits * 0x10000),
            r is Some ==> r->0.bits == (self.bits * other.bits) / 0x10000,
    {
        let a: i128 = self.bits as i128;
        let b: i128 = other.bits as i128;
        assert(-0x4000_0000_0000_0000 <= a * b <= 0x4000_0000_0000_0000) by (nonlinear_arith)
            requires
                -0x8000_0000 <= a <= 0x8000_0000,
                -0x8000_0000 <= b <= 0x8000_0000,
        ;
        let product: i128 = a * b * 0x10000;
        if product < i64::MIN as i128 || product > i64::MAX as i128 {
            None
        } else {
            Some(self.mul(other))
        }
    }

    /// The quotient (rounded towards zero), where the divisor is not zero
    /// and the quotient fits.
    pub fn checked_div(self, other: Self) -> (r: Option<Self>)
        ensures
            r is Some <==> (other.bits != 0 && fits_i32(
                div_toward_zero(self.bits * 0x10000, other.bits as int),
            )),
            r is Some ==> r->0.bits == div_toward_zero(self.bits * 0x10000, other.bits as int),
    {
        if other.bits == 0 {
            return None;
        }
        let numerator: i64 = self.bits as i64 * 0x10000;
        let num_mag: i64 = if numerator >= 0 {
            numerator
        } else {
            -numerator
        };
        let den_mag: i64 = if other.bits >= 0 {
            other.bits as i64
        } else {
            -(other.bits as i64)
        };
        let q: i64 = num_mag / den_mag;
        let negative = (numerator < 0) != (other.bits < 0);
        proof {
            lemma_div_toward_zero_magnitudes(numerator as int, other.bits as int);
        }
        let fits = if negative {
            q <= 0x8000_0000
        } else {
            q <= 0x7fff_ffff
        };
        if fits {
            Some(self.div(other))
        } else {
            None
        }
    }

    pub fn shl(self, k: u32) -> (r: Self)
        requires
            k < 32,
            fits_i32(self.bits * pow2(k as nat)),
        ensures
            r.bits == self.bits * pow2(k as nat),
    {
        I16F16 { bits: i16f16_shl(self.bits, k) }
    }

    /// Shifting a non-negative number right rounds towards minus infinity.
    pub fn shr(self, k: u32) -> (r: Self)
        requires
            k < 32,
            self.bits >= 0,
        ensures
            r.bits == self.bits as int / pow2(k as nat) as int,
    {
        I16F16 { bits: i16f16_shr(self.bits, k) }
    }

    /// The number of leading zero bits of a positive number.
    pub fn leading_zeros(&self) -> (r: u32)
        requires
            self.bits > 0,
        ensures
            r == 32 - bit_length(self.bits as nat),
    {
        i16f16_leading_zeros(self.bits)
    }

    /// The product, rounded towards minus infinity.
    pub fn mul(self, other: Self) -> (r: Self)
        requires
            fits_i64(self.bits * other.bits * 0x10000),
        ensures
            r.bits == (self.bits * other.bits) / 0x10000,
    {
        I16F16 { bits: i16f16_mul(self.bits, other.bits) }
    }

    /// The quotient, rounded towards zero.
    pub fn div(self, other: Self) -> (r: Self)
        requires
            other.bits != 0,
            fits_i32(div_toward_zero(self.bits * 0x10000, other.bits as int)),
        ensures
            r.bits == div_toward_zero(self.bits * 0x10000, other.bits as int),
    {
        I16F16 { bits: i16f16_div(self.bits, other.bits) }
    }
}

impl I28F4 {
    pub fn from_bits(bits: i32) -> (r: Self)
        ensures
            r.bits == bits,
    {
        I28F4 { bits }
    }

    /// The number with this integer value.
    pub fn from_i32(v: i32) -> (r: Self)
        requires
            fits_i32(v * 16),
        ensures
            r.bits == v * 16,
    {
        I28F4 { bits: i28f4_from_i32(v) }
    }

    pub fn shl(self, k: u32) -> (r: Self)
        requires
            k < 32,
            fits_i32(self.bits * pow2(k as nat)),
        ensures
            r.bits == self.bits * pow2(k as nat),
    {
        I28F4 { bits: i28f4_shl(self.bits, k) }
    }

    /// Shifting a non-negative number right rounds towards minus infinity.
    pub fn shr(self, k: u32) -> (r: Self)
        requires
            k < 32,
            self.bits >= 0,
        ensures
            r.bits == self.bits as int / pow2(k as nat) as int,
    {
        I28F4 { bits: i28f4_shr(self.bits, k) }
    }

    /// An `I16F16` with its 12 lowest fractional bits discarded.
    pub fn from_i16f16(x: I16F16) -> (r: Self)
        ensures
            r.bits == x.bits as int / 0x1000,
    {
        I28F4 { bits: i28f4_from_i16f16(x.bits) }
    }

    pub fn add(self, other: Self) -> (r: Self)
        requires
            fits_i32(self.bits + other.bits),
        ensures
            r.bits == self.bits + other.bits,
    {
        I28F4 { bits: i28f4_add(self.bits, other.bits) }
    }

    pub fn sub(self, other: Self) -> (r: Self)
        requires
            fits_i32(self.bits - other.bits),
        ensures
            r.bits == self.bits - other.bits,
    {
        I28F4 { bits: i28f4_sub(self.bits, other.bits) }
    }

    pub fn neg(self) -> (r: Self)
        requires
            self.bits != i32::MIN,
        ensures
            r.bits == -self.bits,
    {
        I28F4 { bits: i28f4_neg(self.bits) }
    }

    /// The product, rounded towards minus infinity.
    pub fn mul(self, other: Self) -> (r: Self)
        requires
            fits_i64(self.bits * other.bits * 0x1000_0000),
        ensures
            r.bits == (self.bits * other.bits) / 16,
    {
        I28F4 { bits: i28f4_mul(self.bits, other.bits) }
    }

    /// The quotient, rounded towards zero.
    pub fn div(self, other: Self) -> (r: Self)
        requires
            other.bits != 0,
            fits_i32(div_toward_zero(self.bits * 16, other.bits as int)),
        ensures
            r.bits == div_toward_zero(self.bits * 16, other.bits as int),
    {
        I28F4 { bits: i28f4_div(self.bits, other.bits) }
    }

    /// The larger of the two.
    pub fn max(self, other: Self) -> (r: Self)
        ensures
            r.bits == (if self.bits >= other.bits {
                self.bits
            } else {
                other.bits
            }),
    {
        I28F4 { bits: i28f4_max(self.bits, other.bits) }
    }

    /// The number of leading zero bits of a positive number.
    pub fn leading_zeros(&self) -> (r: u32)
        requires
            self.bits > 0,
        ensures
            r == 32 - bit_length(self.bits as nat),
    {
        i28f4_leading_zeros(self.bits)
    }
}

impl I26F6 {
    pub fn from_bits(bits: i32) -> (r: Self)
        ensures
            r.bits == bits,
    {
        I26F6 { bits }
    }

    /// The number with this integer value.
    pub fn from_u32(v: u32) -> (r: Self)
        requires
            v < 0x200_0000,
        ensures
            r.bits == v * 64,
    {
        I26F6 { bits: i26f6_from_u32(v) }
    }

    pub fn add(self, other: Self) -> (r: Self)
        requires
            fits_i32(self.bits + other.bits),
        ensures
            r.bits == self.bits + other.bits,
    {
        I26F6 { bits: i26f6_add(self.bits, other.bits) }
    }

    /// The product, rounded towards minus infinity.
    pub fn mul(self, other: Self) -> (r: Self)
        requires
            fits_i64(self.bits * other.bits * 0x400_0000),
        ensures
            r.bits == (self.bits * other.bits) / 64,
    {
        I26F6 { bits: i26f6_mul(self.bits, other.bits) }
    }
}

impl I20F12 {
    pub fn from_bits(bits: i32) -> (r: Self)
        ensures
            r.bits == bits,
    {
        I20F12 { bits }
    }

    /// The number with this integer value.
    pub fn from_i32(v: i32) -> (r: Self)
        requires
            fits_i32(v * 4096),
        ensures
            r.bits == v * 4096,
    {
        I20F12 { bits: i20f12_from_i32(v) }
    }

    /// An `I16F16` with its four lowest fractional bits discarded.
    pub fn from_i16f16(x: I16F16) -> (r: Self)
        ensures
            r.bits == x.bits as int / 16,
    {
        I20F12 { bits: i20f12_from_i16f16(x.bits) }
    }

    pub fn add(self, other: Self) -> (r: Self)
        requires
            fits_i32(self.bits + other.bits),
        ensures
            r.bits == self.bits + other.bits,
    {
        I20F12 { bits: i20f12_add(self.bits, other.bits) }
    }

    pub fn sub(self, other: Self) -> (r: Self)
        requires
            fits_i32(self.bits - other.bits),
        ensures
            r.bits == self.bits - other.bits,
    {
        I20F12 { bits: i20f12_sub(self.bits, other.bits) }
    }

    pub fn neg(self) -> (r: Self)
        requires
            self.bits != i32::MIN,
        ensures
            r.bits == -self.bits,
    {
        I20F12 { bits: i20f12_neg(self.bits) }
    }

    /// The product, rounded towards minus infinity.
    pub fn mul(self, other: Self) -> (r: Self)
        requires
            fits_i64(self.bits * other.bits * 0x10_0000),
        ensures
            r.bits == (self.bits * other.bits) / 4096,
    {
        I20F12 { bits: i20f12_mul(self.bits, other.bits) }
    }

    /// The quotient, rounded towards zero.
    pub fn div(self, other: Self) -> (r: Self)
        requires
            other.bits != 0,
            fits_i32(div_toward_zero(self.bits * 4096, other.bits as int)),
        ensures
            r.bits == div_toward_zero(self.bits * 4096, other.bits as int),
    {
        I20F12 { bits: i20f12_div(self.bits, other.bits) }
    }
}

} // verus!
