//! An approximate square root of a positive fixed-point number (`I28F4`
//! or `I16F16`) by a few Newton steps from a power-of-two first guess.
use vstd::arithmetic::power2::{
    lemma_pow2_adds, lemma_pow2_pos, lemma_pow2_strictly_increases, lemma_pow2_subtracts,
    lemma_pow2_unfold, pow2,
};
use vstd::prelude::*;

use crate::fixed_point::{bit_length, div_toward_zero, I16F16, I28F4};

verus! {

/// How many Newton steps are taken at most.
pub const NEWTON_STEPS: u32 = 5;

/// The fractional bits of the two types the root is taken in.
pub open spec fn supported_frac(frac: nat) -> bool {
    frac == 4 || frac == 16
}

/// The bits of one in a 32-bit fixed-point type with `frac` fractional
/// bits.
pub open spec fn one_bits(frac: nat) -> int {
    pow2(frac) as int
}

/// The first guess for the root of a positive number with these bits, in
/// a type with `frac` fractional bits: one, shifted by half the distance of
/// the number's leading one from the binary point.
pub open spec fn sqrt_first_guess(n: int, frac: nat) -> int {
    let int_bits = 32 - frac;
    let leading = 31 - bit_length(n as nat);
    if leading > int_bits {
        one_bits(frac) / pow2(((leading - int_bits) / 2) as nat) as int
    } else {
        one_bits(frac) * pow2(((int_bits - leading) / 2) as nat) as int
    }
}

/// Newton steps on the bits of `n` from the guess `x`, at most `k` of
/// them, stopping when a step changes nothing or reaches zero.
pub open spec fn newton_steps(n: int, x: int, root: int, k: nat, frac: nat) -> int
    decreases k,
{
    if k == 0 || x == 0 {
        root
    } else {
        let q = div_toward_zero(n * one_bits(frac), x);
        let r = div_toward_zero((x + q) * one_bits(frac), 2 * one_bits(frac));
        if x == r || r == 0 {
            r
        } else {
            newton_steps(n, r, r, (k - 1) as nat, frac)
        }
    }
}

/// The bits of the approximate root of the number with bits `n`, in a type
/// with `frac` fractional bits; zero for numbers that are not positive.
pub open spec fn approx_sqrt_bits_in(n: int, frac: nat) -> int {
    if n <= 0 {
        0
    } else {
        newton_steps(n, sqrt_first_guess(n, frac), 0, NEWTON_STEPS as nat, frac)
    }
}

/// The bits of the approximate root of the `I28F4` number with bits `n`.
pub open spec fn approx_sqrt_bits(n: int) -> int {
    approx_sqrt_bits_in(n, 4)
}

/// The bits of the approximate root of the `I16F16` number with bits `n`.
pub open spec fn approx_sqrt_i16f16_bits(n: int) -> int {
    approx_sqrt_bits_in(n, 16)
}

/// The largest first guess: one shifted by half the integer bits.
pub open spec fn guess_bound(frac: nat) -> int {
    pow2(((32 + frac) / 2) as nat) as int
}

proof fn lemma_bit_length_bounds(n: nat)
    requires
        n > 0,
    ensures
        bit_length(n) >= 1,
        pow2((bit_length(n) - 1) as nat) <= n < pow2(bit_length(n)),
    decreases n,
{
    vstd::arithmetic::power2::lemma2_to64();
    if n == 1 {
        assert(bit_length(0) == 0);
        assert(bit_length(1) == 1 + bit_length(0));
    } else {
        let h = n / 2;
        lemma_bit_length_bounds(h);
        let b = bit_length(h);
        assert(bit_length(n) == b + 1);
        lemma_pow2_unfold(b);
        lemma_pow2_unfold(b + 1);
        assert(pow2((b - 1) as nat) <= h < pow2(b));
        assert(pow2(b) == 2 * pow2((b - 1) as nat));
        assert(pow2(b + 1) == 2 * pow2(b));
        assert(n == 2 * h || n == 2 * h + 1);
    }
}

/// Scaling up by `u` and dividing by `2 u` halves, rounding down.
proof fn lemma_half(t: int, u: int)
    requires
        t >= 0,
        u > 0,
    ensures
        div_toward_zero(t * u, 2 * u) == t / 2,
{
    vstd::arithmetic::div_mod::lemma_fundamental_div_mod(t, 2);
    let h = t / 2;
    let m = t % 2;
    assert(t * u == h * (2 * u) + m * u) by (nonlinear_arith)
        requires
            t == 2 * h + m,
    ;
    assert(0 <= m * u < 2 * u) by (nonlinear_arith)
        requires
            0 <= m < 2,
            u > 0,
    ;
    assert(t * u >= 0) by (nonlinear_arith)
        requires
            t >= 0,
            u > 0,
    ;
    vstd::arithmetic::div_mod::lemma_fundamental_div_mod_converse(t * u, 2 * u, h, m * u);
}

/// A Newton step from a guess whose successor squared exceeds `s` gives a
/// guess with the same property, at least one, and at most one above the
/// old guess.
proof fn lemma_newton_step(s: int, x: int)
    requires
        s >= 16,
        x >= 1,
        (x + 1) * (x + 1) > s,
    ensures
        ({
            let q = s / x;
            let r = (x + q) / 2;
            &&& 0 <= q <= x + 2
            &&& 1 <= r <= x + 1
            &&& (r + 1) * (r + 1) > s
        }),
{
    let q = s / x;
    let r = (x + q) / 2;
    vstd::arithmetic::div_mod::lemma_fundamental_div_mod(s, x);
    let m = s % x;
    assert(0 <= m < x);
    assert(s == x * q + m);
    assert(q >= 0) by (nonlinear_arith)
        requires
            s == x * q + m,
            0 <= m < x,
            s >= 16,
            x >= 1,
    ;
    assert(q <= x + 2) by (nonlinear_arith)
        requires
            s == x * q + m,
            0 <= m < x,
            (x + 1) * (x + 1) > s,
            x >= 1,
    ;
    assert(x * (q + 1) > s) by (nonlinear_arith)
        requires
            s == x * q + m,
            0 <= m < x,
    ;
    assert(2 * (r + 1) >= x + q + 1);
    assert((r + 1) * (r + 1) > s) by (nonlinear_arith)
        requires
            2 * (r + 1) >= x + q + 1,
            x * (q + 1) > s,
            x >= 1,
            q >= 0,
            r >= 0,
    ;
    assert(r >= 1) by (nonlinear_arith)
        requires
            (r + 1) * (r + 1) > s,
            s >= 16,
            r >= 0,
    ;
}

/// A guess `2^e` with `2 e >= frac + len` has a square above `2^frac` times
/// any number below `2^len`.
proof fn lemma_power_guess(e: nat, frac: nat, len: nat, n: int)
    requires
        2 * e >= frac + len,
        0 < n < pow2(len),
    ensures
        (pow2(e) + 1) * (pow2(e) + 1) > pow2(frac) * n,
{
    lemma_pow2_adds(e, e);
    lemma_pow2_adds(frac, len);
    if 2 * e > frac + len {
        lemma_pow2_strictly_increases(frac + len, 2 * e);
    }
    lemma_pow2_pos(frac);
    lemma_pow2_pos(e);
    let g = pow2(e) as int;
    let p = pow2(frac) as int;
    assert(p * n < p * pow2(len)) by (nonlinear_arith)
        requires
            p > 0,
            n < pow2(len),
    ;
    assert((g + 1) * (g + 1) > g * g) by (nonlinear_arith)
        requires
            g > 0,
    ;
}

/// The first guess is at least one, at most `guess_bound`, and its
/// successor squared exceeds `2^frac` times the number.
proof fn lemma_first_guess(n: int, frac: nat)
    requires
        0 < n <= i32::MAX,
        supported_frac(frac),
    ensures
        1 <= bit_length(n as nat) <= 31,
        1 <= sqrt_first_guess(n, frac) <= guess_bound(frac),
        (sqrt_first_guess(n, frac) + 1) * (sqrt_first_guess(n, frac) + 1) > one_bits(frac) * n,
{
    vstd::arithmetic::power2::lemma2_to64();
    lemma_bit_length_bounds(n as nat);
    let len = bit_length(n as nat);
    if len > 31 {
        if len - 1 > 31 {
            lemma_pow2_strictly_increases(31, (len - 1) as nat);
        }
        assert(pow2((len - 1) as nat) >= pow2(31));
        assert(false);
    }
    let int_bits = 32 - frac;
    let leading = 31 - len;
    let g = sqrt_first_guess(n, frac);
    if leading > int_bits {
        let j = ((leading - int_bits) / 2) as nat;
        let e = (frac - j) as nat;
        assert(j <= frac);
        lemma_pow2_subtracts(j, frac);
        lemma_pow2_adds(e, j);
        assert(pow2(frac) == pow2(e) * pow2(j));
        lemma_pow2_pos(j);
        vstd::arithmetic::div_mod::lemma_div_multiples_vanish(pow2(e) as int, pow2(j) as int);
        assert(pow2(j) * pow2(e) == pow2(e) * pow2(j)) by (nonlinear_arith);
        assert(g == pow2(e));
        lemma_power_guess(e, frac, len, n);
        lemma_pow2_pos(e);
        if e < (32 + frac) / 2 {
            lemma_pow2_strictly_increases(e, ((32 + frac) / 2) as nat);
        }
    } else {
        let k = ((int_bits - leading) / 2) as nat;
        let e = frac + k;
        lemma_pow2_adds(frac, k);
        assert(g == pow2(e));
        lemma_power_guess(e, frac, len, n);
        lemma_pow2_pos(e);
        if e < (32 + frac) / 2 {
            lemma_pow2_strictly_increases(e, ((32 + frac) / 2) as nat);
        }
    }
}

proof fn lemma_newton_steps_keep_bound(n: int, x: int, root: int, k: nat, frac: nat)
    requires
        0 < n <= i32::MAX,
        supported_frac(frac),
        1 <= x,
        (x + 1) * (x + 1) > one_bits(frac) * n,
        k >= 1,
    ensures
        (newton_steps(n, x, root, k, frac) + 1) * (newton_steps(n, x, root, k, frac) + 1) > one_bits(
            frac,
        ) * n,
        1 <= newton_steps(n, x, root, k, frac) <= x + k,
    decreases k,
{
    vstd::arithmetic::power2::lemma2_to64();
    let u = one_bits(frac);
    assert(u * n >= 16) by (nonlinear_arith)
        requires
            u >= 16,
            n >= 1,
    ;
    lemma_newton_step(u * n, x);
    let q = div_toward_zero(n * u, x);
    assert(n * u == u * n) by (nonlinear_arith);
    assert(q == (u * n) / x);
    lemma_half(x + q, u);
    let r = div_toward_zero((x + q) * u, 2 * u);
    assert(r == (x + q) / 2);
    assert(newton_steps(n, x, root, k, frac) == (if x == r || r == 0 {
        r
    } else {
        newton_steps(n, r, r, (k - 1) as nat, frac)
    }));
    if !(x == r || r == 0) && k > 1 {
        lemma_newton_steps_keep_bound(n, r, r, (k - 1) as nat, frac);
    }
}

/// The approximate root never falls short of the true root by a whole unit
/// of the last place: its successor squared exceeds the number (in bits,
/// `(r + 1)^2 > 2^frac n`).
pub proof fn lemma_approx_sqrt_not_below_root_in(n: int, frac: nat)
    requires
        0 < n <= i32::MAX,
        supported_frac(frac),
    ensures
        (approx_sqrt_bits_in(n, frac) + 1) * (approx_sqrt_bits_in(n, frac) + 1) > one_bits(frac) * n,
        1 <= approx_sqrt_bits_in(n, frac) <= guess_bound(frac) + NEWTON_STEPS,
{
    lemma_first_guess(n, frac);
    lemma_newton_steps_keep_bound(n, sqrt_first_guess(n, frac), 0, NEWTON_STEPS as nat, frac);
}

/// The `I28F4` root never falls short of the true root by a whole unit of
/// the last place (in bits, `(r + 1)^2 > 16 n`).
pub proof fn lemma_approx_sqrt_not_below_root(n: int)
    requires
        0 < n <= i32::MAX,
    ensures
        (approx_sqrt_bits(n) + 1) * (approx_sqrt_bits(n) + 1) > 16 * n,
        1 <= approx_sqrt_bits(n) <= 0x4_0000 + NEWTON_STEPS,
{
    vstd::arithmetic::power2::lemma2_to64();
    lemma_approx_sqrt_not_below_root_in(n, 4);
}

/// A first guess `2^e` with `2 e <= frac + len + 2` squares to at most
/// eight times `2^frac` times any number of at least `2^(len - 1)`.
proof fn lemma_power_guess_upper(e: nat, frac: nat, len: nat, n: int)
    requires
        len >= 1,
        2 * e <= frac + len + 2,
        pow2((len - 1) as nat) <= n,
    ensures
        pow2(e) * pow2(e) <= 8 * (pow2(frac) * n),
{
    vstd::arithmetic::power2::lemma2_to64();
    lemma_pow2_adds(e, e);
    let m = (frac + len - 1) as nat;
    lemma_pow2_adds(m, 3);
    if 2 * e < m + 3 {
        lemma_pow2_strictly_increases(2 * e, m + 3);
    }
    lemma_pow2_adds(frac, (len - 1) as nat);
    lemma_pow2_pos(frac);
    let p = pow2(frac) as int;
    assert(p * pow2((len - 1) as nat) <= p * n) by (nonlinear_arith)
        requires
            p > 0,
            pow2((len - 1) as nat) <= n,
    ;
}

/// The first guess squares to at most eight times `2^frac` times the
/// number: it is less than three times the root.
proof fn lemma_first_guess_upper(n: int, frac: nat)
    requires
        0 < n <= i32::MAX,
        supported_frac(frac),
    ensures
        sqrt_first_guess(n, frac) * sqrt_first_guess(n, frac) <= 8 * (one_bits(frac) * n),
{
    vstd::arithmetic::power2::lemma2_to64();
    lemma_first_guess(n, frac);
    lemma_bit_length_bounds(n as nat);
    let len = bit_length(n as nat);
    let int_bits = 32 - frac;
    let leading = 31 - len;
    let g = sqrt_first_guess(n, frac);
    if leading > int_bits {
        let j = ((leading - int_bits) / 2) as nat;
        let e = (frac - j) as nat;
        lemma_pow2_subtracts(j, frac);
        lemma_pow2_adds(e, j);
        lemma_pow2_pos(j);
        vstd::arithmetic::div_mod::lemma_div_multiples_vanish(pow2(e) as int, pow2(j) as int);
        assert(pow2(j) * pow2(e) == pow2(e) * pow2(j)) by (nonlinear_arith);
        assert(g == pow2(e));
        lemma_power_guess_upper(e, frac, len, n);
    } else {
        let k = ((int_bits - leading) / 2) as nat;
        let e = frac + k;
        lemma_pow2_adds(frac, k);
        assert(g == pow2(e));
        lemma_power_guess_upper(e, frac, len, n);
    }
}

/// One Newton step on `S` (with integer root `s`, so `t = s + 1` is above
/// the true root) from any positive `x`: twice `x` times the new guess's
/// excess over `t` stays below the square of the old guess's excess.
proof fn lemma_step_contracts(big_s: int, s: int, x: int)
    requires
        s >= 1,
        s * s <= big_s < (s + 1) * (s + 1),
        x >= 1,
    ensures
        2 * x * ((x + big_s / x) / 2 - (s + 1)) < (x - (s + 1)) * (x - (s + 1)),
{
    let t = s + 1;
    let q = big_s / x;
    let r = (x + q) / 2;
    vstd::arithmetic::div_mod::lemma_fundamental_div_mod(big_s, x);
    let m = big_s % x;
    assert(x * q <= big_s) by (nonlinear_arith)
        requires
            big_s == x * q + m,
            0 <= m,
    ;
    assert(2 * r <= x + q);
    assert(2 * x * r <= x * x + x * q) by (nonlinear_arith)
        requires
            2 * r <= x + q,
            x >= 1,
    ;
    assert(2 * x * (r - t) < (x - t) * (x - t)) by (nonlinear_arith)
        requires
            2 * x * r <= x * x + x * q,
            x * q <= big_s,
            big_s < t * t,
    ;
}

/// The excess over `t` of the guess after a contracting step, from a guess
/// whose excess is at most `2 t / c`, is below `2 t / c^2`.
proof fn lemma_excess_squares(x: int, r: int, t: int, c: int)
    requires
        t >= 2,
        x >= t - 1,
        c >= 1,
        c * (x - t) <= 2 * t,
        2 * x * (r - t) < (x - t) * (x - t),
    ensures
        c * c * (r - t) <= 2 * t,
{
    if r > t {
        if x <= t {
            assert(2 * x * (r - t) >= 2) by (nonlinear_arith)
                requires
                    x >= 1,
                    r - t >= 1,
            ;
            assert((x - t) * (x - t) <= 1) by (nonlinear_arith)
                requires
                    t - 1 <= x <= t,
            ;
        } else {
            let d = x - t;
            assert(c * c * (d * d) <= 4 * (t * t)) by (nonlinear_arith)
                requires
                    c * d <= 2 * t,
                    c >= 1,
                    d >= 1,
            ;
            assert(2 * t * (r - t) <= 2 * x * (r - t)) by (nonlinear_arith)
                requires
                    x > t,
                    r > t,
            ;
            assert(2 * t * (c * c * (r - t)) < 4 * (t * t)) by (nonlinear_arith)
                requires
                    2 * t * (r - t) < d * d,
                    c * c * (d * d) <= 4 * (t * t),
                    c >= 1,
            ;
            assert(c * c * (r - t) < 2 * t) by (nonlinear_arith)
                requires
                    2 * t * (c * c * (r - t)) < 4 * (t * t),
                    t >= 2,
            ;
        }
    } else {
        assert(c * c * (r - t) <= 0) by (nonlinear_arith)
            requires
                r <= t,
                c >= 1,
        ;
    }
}

/// A guess that a contracting step leaves where it is lies at or below
/// `t`.
proof fn lemma_fixed_point_within(x: int, t: int)
    requires
        t >= 1,
        x >= 1,
        2 * x * (x - t) < (x - t) * (x - t),
    ensures
        x <= t,
{
    if x > t {
        let d = x - t;
        assert(d * d < 2 * x * d) by (nonlinear_arith)
            requires
                d > 0,
                d < 2 * x,
        ;
    }
}

/// From a guess below three times `t`, one contracting step leaves an
/// excess of at most `2 t / 3`.
proof fn lemma_first_excess(x: int, r: int, t: int)
    requires
        t >= 2,
        x >= t - 1,
        x <= 3 * t,
        2 * x * (r - t) < (x - t) * (x - t),
    ensures
        3 * (r - t) <= 2 * t,
{
    if r > t {
        if x <= t {
            assert(2 * x * (r - t) >= 2) by (nonlinear_arith)
                requires
                    x >= 1,
                    r - t >= 1,
            ;
            assert((x - t) * (x - t) <= 1) by (nonlinear_arith)
                requires
                    t - 1 <= x <= t,
            ;
        } else {
            let d = x - t;
            assert(3 * (d * d) <= 4 * t * (t + d)) by (nonlinear_arith)
                requires
                    1 <= d <= 2 * t,
            ;
            assert(6 * (t + d) * (r - t) < 4 * t * (t + d)) by (nonlinear_arith)
                requires
                    2 * (t + d) * (r - t) < d * d,
                    3 * (d * d) <= 4 * t * (t + d),
            ;
            assert(3 * (r - t) < 2 * t) by (nonlinear_arith)
                requires
                    6 * (t + d) * (r - t) < 4 * t * (t + d),
                    t + d > 0,
            ;
        }
    }
}

/// `c` squared `k` times over.
pub open spec fn squared_steps(c: int, k: nat) -> int
    decreases k,
{
    if k == 0 {
        c
    } else {
        squared_steps(c * c, (k - 1) as nat)
    }
}

/// Newton steps from a guess at or above the integer root `s`, whose excess
/// over `s + 1` is at most `2 (s + 1) / c`, end at most at `s + 1` when `c`
/// squared once per step left outgrows `2 (s + 1)`.
proof fn lemma_newton_steps_converge(n: int, x: int, k: nat, frac: nat, s: int, c: int)
    requires
        0 < n <= i32::MAX,
        supported_frac(frac),
        s >= 1,
        s * s <= one_bits(frac) * n < (s + 1) * (s + 1),
        x >= 1,
        (x + 1) * (x + 1) > one_bits(frac) * n,
        c >= 1,
        c * (x - (s + 1)) <= 2 * (s + 1),
        squared_steps(c, k) > 2 * (s + 1),
    ensures
        newton_steps(n, x, x, k, frac) <= s + 1,
    decreases k,
{
    vstd::arithmetic::power2::lemma2_to64();
    let t = s + 1;
    let u = one_bits(frac);
    let big_s = u * n;
    assert(x >= s) by (nonlinear_arith)
        requires
            (x + 1) * (x + 1) > big_s,
            big_s >= s * s,
            x >= 1,
            s >= 1,
    ;
    if k == 0 {
        assert(x <= t) by (nonlinear_arith)
            requires
                c * (x - t) <= 2 * t,
                c > 2 * t,
                t >= 2,
        ;
    } else {
        assert(u * n >= 16) by (nonlinear_arith)
            requires
                u >= 16,
                n >= 1,
        ;
        lemma_newton_step(u * n, x);
        let q = div_toward_zero(n * u, x);
        assert(n * u == u * n) by (nonlinear_arith);
        assert(q == (u * n) / x);
        lemma_half(x + q, u);
        let r = div_toward_zero((x + q) * u, 2 * u);
        assert(r == (x + q) / 2);
        assert(newton_steps(n, x, x, k, frac) == (if x == r || r == 0 {
            r
        } else {
            newton_steps(n, r, r, (k - 1) as nat, frac)
        }));
        lemma_step_contracts(big_s, s, x);
        if x == r {
            lemma_fixed_point_within(x, t);
        } else if r != 0 {
            lemma_excess_squares(x, r, t, c);
            assert(squared_steps(c, k) == squared_steps(c * c, (k - 1) as nat));
            assert(c * c >= 1) by (nonlinear_arith)
                requires
                    c >= 1,
            ;
            lemma_newton_steps_converge(n, r, (k - 1) as nat, frac, s, c * c);
        }
    }
}

/// The approximate root is the integer square root of `2^frac` times the
/// number, or one more: with `s` the largest integer whose square is at
/// most `2^frac n`, the root's bits are `s` or `s + 1`.
pub proof fn lemma_approx_sqrt_within_one_in(n: int, frac: nat, s: int)
    requires
        0 < n <= i32::MAX,
        supported_frac(frac),
        0 <= s,
        s * s <= one_bits(frac) * n < (s + 1) * (s + 1),
    ensures
        s <= approx_sqrt_bits_in(n, frac) <= s + 1,
{
    vstd::arithmetic::power2::lemma2_to64();
    let u = one_bits(frac);
    let big_s = u * n;
    let t = s + 1;
    lemma_approx_sqrt_not_below_root_in(n, frac);
    let a = approx_sqrt_bits_in(n, frac);
    assert(u * n >= 16) by (nonlinear_arith)
        requires
            u >= 16,
            n >= 1,
    ;
    assert(s >= 1) by (nonlinear_arith)
        requires
            big_s < (s + 1) * (s + 1),
            big_s >= 16,
            s >= 0,
    ;
    assert(a >= s) by (nonlinear_arith)
        requires
            (a + 1) * (a + 1) > big_s,
            big_s >= s * s,
            a >= 1,
            s >= 1,
    ;
    assert(big_s < 0x1_0000_0000_0000) by (nonlinear_arith)
        requires
            big_s == u * n,
            u <= 0x10000,
            n <= 0x7fff_ffff,
            u >= 0,
            n >= 0,
    ;
    assert(s < 0x100_0000) by (nonlinear_arith)
        requires
            s * s <= big_s,
            big_s < 0x1_0000_0000_0000,
            s >= 0,
    ;
    lemma_first_guess(n, frac);
    lemma_first_guess_upper(n, frac);
    let g = sqrt_first_guess(n, frac);
    assert(g < 3 * t) by (nonlinear_arith)
        requires
            g * g <= 8 * big_s,
            big_s < t * t,
            g >= 1,
            t >= 1,
    ;
    assert(g >= s) by (nonlinear_arith)
        requires
            (g + 1) * (g + 1) > big_s,
            big_s >= s * s,
            g >= 1,
            s >= 1,
    ;
    lemma_newton_step(u * n, g);
    let q = div_toward_zero(n * u, g);
    assert(n * u == u * n) by (nonlinear_arith);
    assert(q == (u * n) / g);
    lemma_half(g + q, u);
    let r = div_toward_zero((g + q) * u, 2 * u);
    assert(r == (g + q) / 2);
    let k = NEWTON_STEPS as nat;
    assert(a == newton_steps(n, g, 0, k, frac));
    assert(newton_steps(n, g, 0, k, frac) == (if g == r || r == 0 {
        r
    } else {
        newton_steps(n, r, r, (k - 1) as nat, frac)
    }));
    lemma_step_contracts(big_s, s, g);
    if g == r {
        lemma_fixed_point_within(g, t);
    } else if r != 0 {
        lemma_first_excess(g, r, t);
        assert(squared_steps(43046721, 0) == 43046721);
        assert(squared_steps(6561, 1) == 43046721);
        assert(squared_steps(81, 2) == 43046721);
        assert(squared_steps(9, 3) == 43046721);
        assert(squared_steps(3, 4) == 43046721);
        lemma_newton_steps_converge(n, r, 4, frac, s, 3);
    }
}

/// The `I16F16` root is the integer square root of `2^16` times the
/// number's bits, or one more.
pub proof fn lemma_approx_sqrt_i16f16_within_one(n: int, s: int)
    requires
        0 < n <= i32::MAX,
        0 <= s,
        s * s <= 0x10000 * n < (s + 1) * (s + 1),
    ensures
        s <= approx_sqrt_i16f16_bits(n) <= s + 1,
{
    vstd::arithmetic::power2::lemma2_to64();
    lemma_approx_sqrt_within_one_in(n, 16, s);
}

/// The `I28F4` root is the integer square root of 16 times the number's
/// bits, or one more.
pub proof fn lemma_approx_sqrt_within_one(n: int, s: int)
    requires
        0 < n <= i32::MAX,
        0 <= s,
        s * s <= 16 * n < (s + 1) * (s + 1),
    ensures
        s <= approx_sqrt_bits(n) <= s + 1,
{
    vstd::arithmetic::power2::lemma2_to64();
    lemma_approx_sqrt_within_one_in(n, 4, s);
}

/// An approximate square root of an `I28F4` number: Newton steps on the
/// bits, at most `NEWTON_STEPS` of them, from a first guess derived from
/// the position of the leading one. Not positive numbers give zero.
pub fn approx_sqrt(n: I28F4) -> (r: I28F4)
    ensures
        r.bits == approx_sqrt_bits(n.bits as int),
{
    let zero = I28F4::from_i32(0);
    if n.bits <= zero.bits {
        return zero;
    }
    let mut root = zero;
    proof {
        vstd::arithmetic::power2::lemma2_to64();
        lemma_first_guess(n.bits as int, 4);
    }
    let int_nbits: u32 = 28;
    let frac_nbits: u32 = 4;
    let leading = n.leading_zeros() - 1;
    if leading >= frac_nbits + int_nbits {
        return zero;
    }
    let one = I28F4::from_i32(1);
    let mut x = if leading > int_nbits {
        one.shr((leading - int_nbits) / 2)
    } else {
        proof {
            let k = ((int_nbits - leading) / 2) as nat;
            assert(k <= 14);
            if k < 14 {
                lemma_pow2_strictly_increases(k, 14);
            }
        }
        one.shl((int_nbits - leading) / 2)
    };
    assert(x.bits == sqrt_first_guess(n.bits as int, 4));
    let two = I28F4::from_i32(2);
    let ghost s = 16 * n.bits;
    let mut i: u32 = 0;
    while i < NEWTON_STEPS
        invariant_except_break
            0 < n.bits,
            s == 16 * n.bits,
            i <= NEWTON_STEPS,
            two.bits == 32,
            1 <= x.bits <= 0x4_0000 + i,
            (x.bits + 1) * (x.bits + 1) > s,
            zero.bits == 0,
            newton_steps(n.bits as int, x.bits as int, root.bits as int, (NEWTON_STEPS - i) as nat, 4)
                == approx_sqrt_bits(n.bits as int),
        ensures
            root.bits == approx_sqrt_bits(n.bits as int),
        decreases NEWTON_STEPS - i,
    {
        proof {
            vstd::arithmetic::power2::lemma2_to64();
            lemma_newton_step(s, x.bits as int);
        }
        let ghost k = (NEWTON_STEPS - i) as nat;
        let ghost old_root = root.bits as int;
        let q = n.div(x);
        assert(q.bits == s / (x.bits as int));
        proof {
            lemma_half(x.bits + q.bits, 16);
        }
        root = x.add(q).div(two);
        assert(root.bits == (x.bits + q.bits) / 2);
        assert(newton_steps(n.bits as int, x.bits as int, old_root, k, 4) == (if x.bits == root.bits
            || root.bits == 0 {
            root.bits as int
        } else {
            newton_steps(n.bits as int, root.bits as int, root.bits as int, (k - 1) as nat, 4)
        }));
        if x.bits == root.bits || root.bits == zero.bits {
            break;
        }
        x = root;
        i += 1;
    }
    root
}

/// An approximate square root of an `I16F16` number, the same Newton steps
/// as `approx_sqrt` on the bits of the other type.
pub fn approx_sqrt_i16f16(n: I16F16) -> (r: I16F16)
    ensures
        r.bits == approx_sqrt_i16f16_bits(n.bits as int),
{
    let zero = I16F16::from_i32(0);
    if n.bits <= zero.bits {
        return zero;
    }
    let mut root = zero;
    proof {
        vstd::arithmetic::power2::lemma2_to64();
        lemma_first_guess(n.bits as int, 16);
    }
    let int_nbits: u32 = 16;
    let frac_nbits: u32 = 16;
    let leading = n.leading_zeros() - 1;
    if leading >= frac_nbits + int_nbits {
        return zero;
    }
    let one = I16F16::from_i32(1);
    let mut x = if leading > int_nbits {
        one.shr((leading - int_nbits) / 2)
    } else {
        proof {
            let k = ((int_nbits - leading) / 2) as nat;
            assert(k <= 8);
            if k < 8 {
                lemma_pow2_strictly_increases(k, 8);
            }
        }
        one.shl((int_nbits - leading) / 2)
    };
    assert(x.bits == sqrt_first_guess(n.bits as int, 16));
    let two = I16F16::from_i32(2);
    let ghost s = 0x10000 * n.bits;
    let mut i: u32 = 0;
    while i < NEWTON_STEPS
        invariant_except_break
            0 < n.bits,
            s == 0x10000 * n.bits,
            i <= NEWTON_STEPS,
            two.bits == 0x20000,
            1 <= x.bits <= 0x100_0000 + i,
            (x.bits + 1) * (x.bits + 1) > s,
            zero.bits == 0,
            newton_steps(n.bits as int, x.bits as int, root.bits as int, (NEWTON_STEPS - i) as nat, 16)
                == approx_sqrt_i16f16_bits(n.bits as int),
        ensures
            root.bits == approx_sqrt_i16f16_bits(n.bits as int),
        decreases NEWTON_STEPS - i,
    {
        proof {
            vstd::arithmetic::power2::lemma2_to64();
            assert(s >= 16);
            lemma_newton_step(s, x.bits as int);
        }
        let ghost k = (NEWTON_STEPS - i) as nat;
        let ghost old_root = root.bits as int;
        let q = n.div(x);
        assert(q.bits == s / (x.bits as int));
        proof {
            lemma_half(x.bits + q.bits, 0x10000);
        }
        root = x.add(q).div(two);
        assert(root.bits == (x.bits + q.bits) / 2);
        assert(newton_steps(n.bits as int, x.bits as int, old_root, k, 16) == (if x.bits
            == root.bits || root.bits == 0 {
            root.bits as int
        } else {
            newton_steps(n.bits as int, root.bits as int, root.bits as int, (k - 1) as nat, 16)
        }));
        if x.bits == root.bits || root.bits == zero.bits {
            break;
        }
        x = root;
        i += 1;
    }
    root
}

} // verus!
