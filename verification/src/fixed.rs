//! Fixed-point arithmetic over `i64`.
//!
//! A value `v: i64` stands for the real number `v / SCALE`. All operations
//! are defined exactly over the integers with truncating (round toward zero)
//! division, the semantics of Rust's `/` on machine integers. Saturating
//! variants clamp their result to `[-VALUE_MAX, VALUE_MAX]`, so that every
//! well-formed simulation value keeps enough headroom for further sums.

use vstd::prelude::*;

use vstd::arithmetic::power2::pow2;

verus! {

/// Number of fixed-point units in one whole unit: values count billionths.
pub const SCALE: i64 = 1_000_000_000;

/// Largest magnitude a simulation value may take, `i64::MAX / 2`.
pub const VALUE_MAX: i64 = 0x3fff_ffff_ffff_ffff;

/// Integer division truncating toward zero (Rust's `/`), for positive divisors.
pub open spec fn tdiv(a: int, b: int) -> int
    recommends
        b > 0,
{
    if a >= 0 {
        a / b
    } else {
        -((-a) / b)
    }
}

/// The fixed-point product of `a` and `b`: `a * b / SCALE`, truncated.
pub open spec fn spec_mul_fp(a: int, b: int) -> int {
    tdiv(a * b, SCALE as int)
}

/// The fixed-point quotient of `a` by `b`: `a * SCALE / b`, truncated.
pub open spec fn spec_div_fp(a: int, b: int) -> int
    recommends
        b > 0,
{
    tdiv(a * SCALE, b)
}

/// `x` clamped to the interval `[-VALUE_MAX, VALUE_MAX]`.
pub open spec fn clamp_value(x: int) -> int {
    if x > VALUE_MAX as int {
        VALUE_MAX as int
    } else if x < -(VALUE_MAX as int) {
        -(VALUE_MAX as int)
    } else {
        x
    }
}

/// The product of two `i64`-sized values stays well inside the `i128` range.
proof fn lemma_i64_product_in_i128(a: int, b: int)
    requires
        -0x8000_0000_0000_0000 <= a <= 0x7fff_ffff_ffff_ffff,
        -0x8000_0000_0000_0000 <= b <= 0x7fff_ffff_ffff_ffff,
    ensures
        -0x4000_0000_0000_0000_0000_0000_0000_0000 <= a * b
            <= 0x4000_0000_0000_0000_0000_0000_0000_0000,
{
    assert(-0x4000_0000_0000_0000_0000_0000_0000_0000 <= a * b
        <= 0x4000_0000_0000_0000_0000_0000_0000_0000) by (nonlinear_arith)
        requires
            -0x8000_0000_0000_0000 <= a <= 0x7fff_ffff_ffff_ffff,
            -0x8000_0000_0000_0000 <= b <= 0x7fff_ffff_ffff_ffff,
    ;
}

/// A product of nonnegative values is bounded by the product of their bounds.
pub proof fn lemma_mul_nonneg_le(a: int, b: int, ca: int, cb: int)
    requires
        0 <= a <= ca,
        0 <= b <= cb,
    ensures
        0 <= a * b <= ca * cb,
{
    assert(0 <= a * b <= ca * cb) by (nonlinear_arith)
        requires
            0 <= a <= ca,
            0 <= b <= cb,
    ;
}

/// Truncating division never exceeds the dividend in magnitude.
pub proof fn lemma_tdiv_magnitude(a: int, b: int)
    requires
        b > 0,
    ensures
        a >= 0 ==> 0 <= tdiv(a, b) <= a,
        a < 0 ==> a <= tdiv(a, b) <= 0,
{
    if a >= 0 {
        vstd::arithmetic::div_mod::lemma_div_pos_is_pos(a, b);
        vstd::arithmetic::div_mod::lemma_div_nonincreasing(a, b);
    } else {
        vstd::arithmetic::div_mod::lemma_div_pos_is_pos(-a, b);
        vstd::arithmetic::div_mod::lemma_div_nonincreasing(-a, b);
    }
}

/// Truncating division of an `i128` by a positive divisor.
pub(crate) fn tdiv128(a: i128, b: i128) -> (r: i128)
    requires
        b > 0,
        a > i128::MIN,
    ensures
        r == tdiv(a as int, b as int),
{
    if a >= 0 {
        let q: u128 = (a as u128) / (b as u128);
        q as i128
    } else {
        let m: u128 = (-a) as u128;
        proof {
            lemma_tdiv_magnitude(a as int, b as int);
        }
        let q: u128 = m / (b as u128);
        -(q as i128)
    }
}

/// Clamp an `i128` into the value range, as an `i64`.
fn clamp128(x: i128) -> (r: i64)
    ensures
        r == clamp_value(x as int),
{
    if x > VALUE_MAX as i128 {
        VALUE_MAX
    } else if x < -(VALUE_MAX as i128) {
        -VALUE_MAX
    } else {
        x as i64
    }
}

/// Fixed-point multiplication, saturating at the value range.
pub fn mul_fp(a: i64, b: i64) -> (r: i64)
    ensures
        r == clamp_value(spec_mul_fp(a as int, b as int)),
{
    proof {
        lemma_i64_product_in_i128(a as int, b as int);
    }
    let p: i128 = (a as i128) * (b as i128);
    let q: i128 = tdiv128(p, SCALE as i128);
    clamp128(q)
}

/// Fixed-point division by a positive divisor, saturating at the value range.
pub fn div_fp(a: i64, b: i64) -> (r: i64)
    requires
        b > 0,
    ensures
        r == clamp_value(spec_div_fp(a as int, b as int)),
{
    proof {
        lemma_i64_product_in_i128(a as int, SCALE as int);
    }
    let p: i128 = (a as i128) * (SCALE as i128);
    let q: i128 = tdiv128(p, b as i128);
    clamp128(q)
}

/// The integer square root: the greatest `r` with `r * r <= v`.
pub open spec fn spec_isqrt(v: nat) -> nat
    decreases v,
{
    if v == 0 {
        0
    } else {
        let r = spec_isqrt((v - 1) as nat);
        if (r + 1) * (r + 1) <= v {
            r + 1
        } else {
            r
        }
    }
}

/// Squaring is monotone on the nonnegative integers.
proof fn lemma_square_monotone(a: nat, b: nat)
    requires
        a <= b,
    ensures
        a * a <= b * b,
{
    assert(a * a <= b * b) by (nonlinear_arith)
        requires
            0 <= a <= b,
    ;
}

/// `r` is the integer square root of `v`: `v` lies between `r * r` and the
/// next square.
pub open spec fn isqrt_ok(v: nat, r: nat) -> bool {
    r * r <= v < (r + 1) * (r + 1)
}

/// The integer square root brackets its argument between consecutive squares.
pub proof fn lemma_isqrt_bounds(v: nat)
    ensures
        isqrt_ok(v, spec_isqrt(v)),
    decreases v,
{
    if v > 0 {
        lemma_isqrt_bounds((v - 1) as nat);
        let r = spec_isqrt((v - 1) as nat);
        let s = spec_isqrt(v);
        assert(r * r <= v - 1 && v - 1 < (r + 1) * (r + 1));
        if (r + 1) * (r + 1) <= v {
            assert(s == r + 1);
            assert(s * s <= v && v < (s + 1) * (s + 1)) by (nonlinear_arith)
                requires
                    s == r + 1,
                    (r + 1) * (r + 1) <= v,
                    v - 1 < (r + 1) * (r + 1),
            ;
        } else {
            assert(s == r);
            assert(s * s <= v && v < (s + 1) * (s + 1)) by (nonlinear_arith)
                requires
                    s == r,
                    r * r <= v - 1,
                    v < (r + 1) * (r + 1),
                    v >= 1,
            ;
        }
        assert(isqrt_ok(v, s));
    } else {
        let s = spec_isqrt(v);
        assert(s == 0);
        assert(s * s <= v && v < (s + 1) * (s + 1)) by (nonlinear_arith)
            requires
                s == 0,
                v == 0,
        ;
        assert(isqrt_ok(v, s));
    }
}

/// Bracketing between consecutive squares determines the integer square root.
pub proof fn lemma_isqrt_unique(v: nat, r: nat)
    requires
        isqrt_ok(v, r),
    ensures
        r == spec_isqrt(v),
{
    lemma_isqrt_bounds(v);
    let s = spec_isqrt(v);
    if r < s {
        lemma_square_monotone(r + 1, s);
    }
    if s < r {
        lemma_square_monotone(s + 1, r);
    }
}

/// The integer square root of a `u128`, by bisection.
fn isqrt_u128(v: u128) -> (r: u128)
    ensures
        r == spec_isqrt(v as nat),
        r < 0x1_0000_0000_0000_0000,
{
    let mut lo: u128 = 0;
    let mut hi: u128 = 0x1_0000_0000_0000_0000;
    proof {
        assert((0x1_0000_0000_0000_0000u128 as nat) * (0x1_0000_0000_0000_0000u128 as nat) > v
            as nat) by (nonlinear_arith)
            requires
                v <= u128::MAX,
        ;
    }
    while lo + 1 < hi
        invariant
            lo < hi <= 0x1_0000_0000_0000_0000,
            (lo as nat) * (lo as nat) <= v as nat,
            (hi as nat) * (hi as nat) > v as nat,
        decreases hi - lo,
    {
        let mid: u128 = lo + (hi - lo) / 2;
        proof {
            assert((mid as nat) * (mid as nat) < 0x1_0000_0000_0000_0000_0000_0000_0000_0000)
                by (nonlinear_arith)
                requires
                    mid < 0x1_0000_0000_0000_0000,
            ;
        }
        if mid * mid <= v {
            lo = mid;
        } else {
            hi = mid;
        }
    }
    proof {
        assert(isqrt_ok(v as nat, lo as nat));
        lemma_isqrt_unique(v as nat, lo as nat);
    }
    lo
}

/// The fixed-point square root of a nonnegative fixed-point value:
/// the integer square root of `x * SCALE`.
pub open spec fn spec_sqrt_fp(x: int) -> int
    recommends
        x >= 0,
{
    spec_isqrt((x * SCALE) as nat) as int
}

/// Fixed-point square root of a nonnegative value.
pub fn sqrt_fp(x: i64) -> (r: i64)
    requires
        x >= 0,
    ensures
        r == spec_sqrt_fp(x as int),
        0 <= r <= VALUE_MAX,
        x >= 1 ==> r >= 1,
{
    proof {
        assert((x as nat) * (SCALE as nat) < 0x8000_0000_0000_0000_0000_0000) by (nonlinear_arith)
            requires
                0 <= x <= 0x7fff_ffff_ffff_ffff,
        ;
    }
    let v: u128 = (x as u128) * (SCALE as u128);
    let s: u128 = isqrt_u128(v);
    proof {
        lemma_isqrt_bounds(v as nat);
        assert(s < 0x8000_0000_0000_0000) by (nonlinear_arith)
            requires
                (s as nat) * (s as nat) <= v as nat,
                v < 0x8000_0000_0000_0000_0000_0000,
                s >= 0,
        ;
        assert(s <= VALUE_MAX) by (nonlinear_arith)
            requires
                (s as nat) * (s as nat) <= v as nat,
                v < 0x8000_0000_0000_0000_0000_0000,
                s >= 0,
        ;
        if x >= 1 && s == 0 {
            assert(v >= SCALE as u128) by (nonlinear_arith)
                requires
                    v as int == (x as int) * (SCALE as int),
                    x >= 1,
                    SCALE > 0,
            ;
            assert((s as nat + 1) * (s as nat + 1) == 1) by (nonlinear_arith)
                requires
                    s == 0,
            ;
            assert(false);
        }
    }
    s as i64
}

/// The natural logarithm of two, as a fixed-point value (truncated).
pub const LN2_FP: i64 = 693_147_180;

/// The fixed-point product of nonnegative values is nonnegative, and a
/// factor at most one can only shrink the other factor.
pub proof fn lemma_mul_fp_unit(a: int, b: int)
    requires
        0 <= a <= VALUE_MAX,
        0 <= b <= SCALE,
    ensures
        0 <= spec_mul_fp(a, b) <= a,
        clamp_value(spec_mul_fp(a, b)) == spec_mul_fp(a, b),
{
    assert(0 <= a * b <= a * SCALE) by (nonlinear_arith)
        requires
            0 <= a,
            0 <= b <= SCALE,
    ;
    vstd::arithmetic::div_mod::lemma_div_is_ordered(a * b, a * SCALE, SCALE as int);
    vstd::arithmetic::div_mod::lemma_div_pos_is_pos(a * b, SCALE as int);
    assert(a * SCALE == (SCALE as int) * a) by (nonlinear_arith);
    vstd::arithmetic::div_mod::lemma_div_multiples_vanish(a, SCALE as int);
}

/// One normalization step of the logarithm: halve the mantissa and count the
/// halving, until the mantissa lies below two.
pub open spec fn spec_ln_norm(m: int, k: int) -> (int, int)
    decreases m,
        when m >= 0
{
    if m >= 2 * SCALE {
        spec_ln_norm(m / 2, k + 1)
    } else {
        (m, k)
    }
}

/// The truncated partial sums of the inverse hyperbolic tangent series
/// `p + p*zz/3 + p*zz^2/5 + ...`, eight terms from term index `j`.
pub open spec fn spec_atanh_sum(zz: int, p: int, j: nat) -> int
    decreases 8 - j,
        when j <= 8
{
    if j >= 8 {
        0
    } else {
        tdiv(p, 2 * (j as int) + 1) + spec_atanh_sum(
            zz,
            clamp_value(spec_mul_fp(p, zz)),
            (j + 1) as nat,
        )
    }
}

/// The fixed-point natural logarithm of `x / SCALE`, for `x >= SCALE`:
/// normalize the mantissa into `[1, 2)` by halving, then sum the inverse
/// hyperbolic tangent series of the mantissa.
pub open spec fn spec_ln_fp(x: int) -> int
    recommends
        x >= SCALE,
{
    let norm = spec_ln_norm(x, 0);
    let m = norm.0;
    let k = norm.1;
    let z = tdiv((m - SCALE as int) * SCALE, m + SCALE);
    let zz = clamp_value(spec_mul_fp(z, z));
    clamp_value(k * LN2_FP + 2 * spec_atanh_sum(zz, z, 0))
}

/// Fixed-point natural logarithm of a value at least one.
pub fn ln_fp(x: i64) -> (r: i64)
    requires
        x >= SCALE,
    ensures
        r == spec_ln_fp(x as int),
        0 <= r <= VALUE_MAX,
{
    let mut m: i64 = x;
    let mut k: u32 = 0;
    proof {
        vstd::arithmetic::power2::lemma2_to64();
        assert(m as int * pow2(0) == m) by (nonlinear_arith)
            requires
                pow2(0) == 1,
                m == x,
        ;
    }
    while m >= 2 * SCALE
        invariant
            SCALE <= m,
            m <= x,
            x >= SCALE,
            k <= 62,
            (m as int) * pow2(k as nat) <= x as int,
            spec_ln_norm(x as int, 0) == spec_ln_norm(m as int, k as int),
        decreases m,
    {
        proof {
            lemma_ln_norm_step(m as int, k as int);
        }
        let m2: i64 = m / 2;
        proof {
            assert(pow2(k as nat + 1) == 2 * pow2(k as nat)) by {
                vstd::arithmetic::power2::lemma_pow2_unfold(k as nat + 1);
            }
            vstd::arithmetic::power2::lemma_pow2_pos(k as nat);
            assert(m2 as int * pow2(k as nat + 1) <= m as int * pow2(k as nat)) by (nonlinear_arith)
                requires
                    m2 == m as int / 2,
                    m >= 2 * SCALE,
                    pow2(k as nat + 1) == 2 * pow2(k as nat),
                    pow2(k as nat) >= 1,
            ;
            assert((SCALE as int) * pow2(k as nat + 1) <= m2 as int * pow2(k as nat + 1))
                by (nonlinear_arith)
                requires
                    SCALE <= m2 as int,
                    pow2(k as nat + 1) >= 0,
            ;
            if k as nat + 1 > 62 {
                vstd::arithmetic::power2::lemma2_to64();
                vstd::arithmetic::power2::lemma2_to64_rest();
                if k as nat + 1 > 63 {
                    vstd::arithmetic::power2::lemma_pow2_strictly_increases(63, k as nat + 1);
                }
                assert(pow2(k as nat + 1) >= pow2(63));
                assert((SCALE as int) * pow2(63) > 0x7fff_ffff_ffff_ffff) by (nonlinear_arith)
                    requires
                        pow2(63) == 0x8000_0000_0000_0000,
                ;
                assert((SCALE as int) * pow2(k as nat + 1) >= (SCALE as int) * pow2(63))
                    by (nonlinear_arith)
                    requires
                        pow2(k as nat + 1) >= pow2(63),
                ;
                assert(false);
            }
        }
        m = m2;
        k = k + 1;
    }
    proof {
        assert(spec_ln_norm(m as int, k as int) == (m as int, k as int));
        lemma_z_in_unit(m as int);
        lemma_tdiv_magnitude((m as int - SCALE) * SCALE, m as int + SCALE);
    }
    let znum: i128 = ((m - SCALE) as i128) * (SCALE as i128);
    let z128: i128 = tdiv128(znum, (m + SCALE) as i128);
    let z: i64 = z128 as i64;
    let zz: i64 = mul_fp(z, z);
    proof {
        lemma_mul_fp_unit(z as int, z as int);
    }
    let mut acc: i64 = 0;
    let mut p: i64 = z;
    let mut j: u32 = 0;
    while j < 8
        invariant
            j <= 8,
            0 <= zz <= SCALE,
            0 <= p <= SCALE,
            0 <= acc <= (j as int) * (SCALE as int),
            acc + spec_atanh_sum(zz as int, p as int, j as nat) == spec_atanh_sum(
                zz as int,
                z as int,
                0,
            ),
        decreases 8 - j,
    {
        let d: i64 = 2 * (j as i64) + 1;
        proof {
            lemma_tdiv_magnitude(p as int, d as int);
            lemma_mul_fp_unit(p as int, zz as int);
        }
        let term: i64 = tdiv128(p as i128, d as i128) as i64;
        acc = acc + term;
        p = mul_fp(p, zz);
        j = j + 1;
    }
    let out: i64 = clamp128((k as i128) * (LN2_FP as i128) + 2 * (acc as i128));
    proof {
        assert(k as int * LN2_FP + 2 * acc >= 0) by (nonlinear_arith)
            requires
                k >= 0,
                acc >= 0,
                LN2_FP > 0,
        ;
    }
    out
}

/// Unfolding one halving step keeps the normalization result.
proof fn lemma_ln_norm_step(m: int, k: int)
    requires
        m >= 2 * SCALE,
    ensures
        spec_ln_norm(m, k) == spec_ln_norm(m / 2, k + 1),
{
}

/// The series argument `z = (m - 1)/(m + 1)` of a mantissa in `[1, 2)` lies
/// in `[0, 1)`.
proof fn lemma_z_in_unit(m: int)
    requires
        SCALE <= m < 2 * SCALE,
    ensures
        0 <= tdiv((m - SCALE) * SCALE, m + SCALE) < SCALE,
{
    assert(0 <= (m - SCALE) * SCALE) by (nonlinear_arith)
        requires
            m >= SCALE,
    ;
    vstd::arithmetic::div_mod::lemma_div_pos_is_pos((m - SCALE) * SCALE, m + SCALE);
    assert((m - SCALE) * SCALE < (m + SCALE) * SCALE) by (nonlinear_arith)
        requires
            SCALE > 0,
    ;
    vstd::arithmetic::div_mod::lemma_multiply_divide_lt((m - SCALE) * SCALE, m + SCALE, SCALE as int);
}

/// The logarithm of one is zero.
pub proof fn lemma_ln_one()
    ensures
        spec_ln_fp(SCALE as int) == 0,
{
    assert(spec_ln_norm(SCALE as int, 0) == (SCALE as int, 0int));
    assert(tdiv((SCALE - SCALE) * SCALE, SCALE as int + SCALE) == 0) by {
        assert((SCALE - SCALE) * SCALE == 0) by (nonlinear_arith);
    }
    assert(clamp_value(spec_mul_fp(0, 0)) == 0) by {
        assert(0 * 0 == 0) by (nonlinear_arith);
        vstd::arithmetic::div_mod::lemma_div_of0(SCALE as int);
    }
    lemma_atanh_sum_zero(0, 0);
    assert(0 * LN2_FP == 0) by (nonlinear_arith);
}

/// The series over a zero argument sums to zero.
proof fn lemma_atanh_sum_zero(zz: int, j: nat)
    requires
        zz == 0,
        j <= 8,
    ensures
        spec_atanh_sum(zz, 0, j) == 0,
    decreases 8 - j,
{
    if j < 8 {
        assert(0 * zz == 0) by (nonlinear_arith);
        assert(tdiv(0, 2 * (j as int) + 1) == 0) by {
            vstd::arithmetic::div_mod::lemma_div_of0(2 * (j as int) + 1);
        }
        assert(clamp_value(spec_mul_fp(0, zz)) == 0) by {
            assert(0 * zz == 0) by (nonlinear_arith);
            vstd::arithmetic::div_mod::lemma_div_of0(SCALE as int);
        }
        lemma_atanh_sum_zero(zz, j + 1);
    }
}

/// Largest magnitude of an exponent the exponential evaluates: above it the
/// result saturates at the value range, below its negation at zero.
pub const EXP_ARG_MAX: i64 = 22_000_000_000;

/// The truncated partial sums of the exponential series
/// `term + term*r/(j+1) + ...`, thirteen terms from term index `j`.
pub open spec fn spec_exp_series(r: int, term: int, j: nat) -> int
    decreases 13 - j,
        when j <= 13
{
    if j >= 13 {
        0
    } else {
        term + spec_exp_series(
            r,
            tdiv(clamp_value(spec_mul_fp(term, r)), (j + 1) as int),
            (j + 1) as nat,
        )
    }
}

/// The fixed-point exponential of a nonnegative argument: split off the
/// power-of-two part and sum the series over the remainder below `ln 2`.
pub open spec fn spec_exp_nonneg(x: int) -> int
    recommends
        0 <= x <= EXP_ARG_MAX,
{
    let k = x / (LN2_FP as int);
    let rem = x - k * LN2_FP;
    clamp_value(spec_exp_series(rem, SCALE as int, 0) * pow2(k as nat))
}

/// The fixed-point exponential: saturates at the value range above
/// `EXP_ARG_MAX`, vanishes below its negation, and inverts the positive case
/// for negative arguments.
pub open spec fn spec_exp_fp(x: int) -> int {
    if x > EXP_ARG_MAX {
        VALUE_MAX as int
    } else if x >= 0 {
        spec_exp_nonneg(x)
    } else if x < -EXP_ARG_MAX {
        0
    } else {
        tdiv((SCALE as int) * (SCALE as int), spec_exp_nonneg(-x))
    }
}

/// Every partial exponential series sum over nonnegative inputs is at least
/// its leading term and nonnegative.
proof fn lemma_exp_series_ge_term(r: int, term: int, j: nat)
    requires
        0 <= r < SCALE,
        0 <= term,
        j <= 13,
    ensures
        j < 13 ==> term <= spec_exp_series(r, term, j),
        0 <= spec_exp_series(r, term, j),
    decreases 13 - j,
{
    if j < 13 {
        assert(0 <= term * r) by (nonlinear_arith)
            requires
                0 <= term,
                0 <= r,
        ;
        lemma_tdiv_magnitude(term * r, SCALE as int);
        let nt = tdiv(clamp_value(spec_mul_fp(term, r)), (j + 1) as int);
        lemma_tdiv_magnitude(clamp_value(spec_mul_fp(term, r)), (j + 1) as int);
        lemma_exp_series_ge_term(r, nt, (j + 1) as nat);
    }
}

/// The exponential of a nonnegative argument is at least one.
proof fn lemma_exp_nonneg_ge_one(x: int)
    requires
        0 <= x <= EXP_ARG_MAX,
    ensures
        SCALE <= spec_exp_nonneg(x) <= VALUE_MAX,
{
    let k = x / (LN2_FP as int);
    let rem = x - k * LN2_FP;
    vstd::arithmetic::div_mod::lemma_div_pos_is_pos(x, LN2_FP as int);
    vstd::arithmetic::div_mod::lemma_fundamental_div_mod(x, LN2_FP as int);
    assert(0 <= rem < LN2_FP);
    lemma_exp_series_ge_term(rem, SCALE as int, 0);
    vstd::arithmetic::power2::lemma_pow2_pos(k as nat);
    assert(spec_exp_series(rem, SCALE as int, 0) * pow2(k as nat) >= SCALE) by (nonlinear_arith)
        requires
            spec_exp_series(rem, SCALE as int, 0) >= SCALE,
            pow2(k as nat) >= 1,
    ;
}

/// The fixed-point exponential always lies in `[0, VALUE_MAX]`.
pub proof fn lemma_exp_fp_bounds(x: int)
    ensures
        0 <= spec_exp_fp(x) <= VALUE_MAX,
{
    if x > EXP_ARG_MAX {
    } else if x >= 0 {
        lemma_exp_nonneg_ge_one(x);
    } else if x < -EXP_ARG_MAX {
    } else {
        lemma_exp_nonneg_ge_one(-x);
        lemma_tdiv_magnitude((SCALE as int) * (SCALE as int), spec_exp_nonneg(-x));
        assert(0 <= (SCALE as int) * (SCALE as int)) by (nonlinear_arith);
    }
}

/// The fixed-point exponential of a nonnegative argument.
fn exp_nonneg(x: i64) -> (r: i64)
    requires
        0 <= x <= EXP_ARG_MAX,
    ensures
        r == spec_exp_nonneg(x as int),
        SCALE <= r <= VALUE_MAX,
{
    proof {
        vstd::arithmetic::div_mod::lemma_div_pos_is_pos(x as int, LN2_FP as int);
        vstd::arithmetic::div_mod::lemma_div_is_ordered(x as int, EXP_ARG_MAX as int, LN2_FP as int);
        vstd::arithmetic::div_mod::lemma_fundamental_div_mod(x as int, LN2_FP as int);
    }
    let k: u64 = (x as u64) / (LN2_FP as u64);
    let rem: i64 = x - (k as i64) * LN2_FP;
    let mut acc: i64 = 0;
    let mut term: i64 = SCALE;
    let mut j: u32 = 0;
    while j < 13
        invariant
            j <= 13,
            0 <= rem < LN2_FP,
            0 <= term <= SCALE,
            0 <= acc <= (j as int) * (SCALE as int),
            acc + spec_exp_series(rem as int, term as int, j as nat) == spec_exp_series(
                rem as int,
                SCALE as int,
                0,
            ),
        decreases 13 - j,
    {
        proof {
            lemma_mul_fp_unit(term as int, rem as int);
            lemma_tdiv_magnitude(
                clamp_value(spec_mul_fp(term as int, rem as int)),
                j as int + 1,
            );
        }
        acc = acc + term;
        let scaled: i64 = mul_fp(term, rem);
        term = tdiv128(scaled as i128, (j + 1) as i128) as i64;
        j = j + 1;
    }
    let mut f: i64 = 1;
    let mut i2: u64 = 0;
    proof {
        vstd::arithmetic::power2::lemma2_to64();
    }
    while i2 < k
        invariant
            i2 <= k,
            k <= 31,
            f == pow2(i2 as nat),
            1 <= f <= 0x8000_0000,
        decreases k - i2,
    {
        proof {
            vstd::arithmetic::power2::lemma_pow2_unfold(i2 as nat + 1);
            if i2 as nat + 1 <= 31 {
                vstd::arithmetic::power2::lemma_pow2_adds(i2 as nat + 1, (31 - i2 - 1) as nat);
                vstd::arithmetic::power2::lemma_pow2_pos((31 - i2 - 1) as nat);
                vstd::arithmetic::power2::lemma2_to64();
                vstd::arithmetic::power2::lemma2_to64_rest();
                assert(pow2(i2 as nat + 1) <= pow2(31)) by (nonlinear_arith)
                    requires
                        pow2(31) == pow2(i2 as nat + 1) * pow2((31 - i2 - 1) as nat),
                        pow2((31 - i2 - 1) as nat) >= 1,
                        pow2(i2 as nat + 1) >= 1,
                ;
            }
        }
        f = f * 2;
        i2 = i2 + 1;
    }
    proof {
        lemma_mul_nonneg_le(acc as int, f as int, 13 * (SCALE as int), 0x8000_0000);
    }
    let out: i64 = clamp128((acc as i128) * (f as i128));
    proof {
        lemma_exp_nonneg_ge_one(x as int);
    }
    out
}

/// Fixed-point exponential.
pub fn exp_fp(x: i64) -> (r: i64)
    ensures
        r == spec_exp_fp(x as int),
        0 <= r <= VALUE_MAX,
        x >= 0 ==> r >= SCALE,
{
    if x > EXP_ARG_MAX {
        VALUE_MAX
    } else if x >= 0 {
        exp_nonneg(x)
    } else if x < -EXP_ARG_MAX {
        0
    } else {
        let e: i64 = exp_nonneg(-x);
        proof {
            lemma_tdiv_magnitude((SCALE as int) * (SCALE as int), e as int);
        }
        tdiv128((SCALE as i128) * (SCALE as i128), e as i128) as i64
    }
}

/// The fixed-point inverse of a value in `(0, 1]` is at least one and fits
/// the value range.
pub proof fn lemma_inverse_fp(b: int)
    requires
        1 <= b <= SCALE,
    ensures
        SCALE <= clamp_value(spec_div_fp(SCALE as int, b)) <= (SCALE as int) * (SCALE as int),
        clamp_value(spec_div_fp(SCALE as int, b)) == spec_div_fp(SCALE as int, b),
{
    vstd::arithmetic::div_mod::lemma_div_is_ordered_by_denominator(
        (SCALE as int) * (SCALE as int),
        b,
        SCALE as int,
    );
    vstd::arithmetic::div_mod::lemma_div_multiples_vanish(SCALE as int, SCALE as int);
    lemma_tdiv_magnitude((SCALE as int) * (SCALE as int), b);
    assert((SCALE as int) * (SCALE as int) <= VALUE_MAX) by (nonlinear_arith);
}

/// The fixed-point square of a value of magnitude at most one lies in
/// `[0, 1]`.
pub proof fn lemma_square_fp_unit(u: int)
    requires
        -SCALE <= u <= SCALE,
    ensures
        0 <= clamp_value(spec_mul_fp(u, u)) <= SCALE,
        clamp_value(spec_mul_fp(u, u)) == spec_mul_fp(u, u),
{
    assert(0 <= u * u <= (SCALE as int) * (SCALE as int)) by (nonlinear_arith)
        requires
            -SCALE <= u <= SCALE,
    ;
    vstd::arithmetic::div_mod::lemma_div_is_ordered(
        u * u,
        (SCALE as int) * (SCALE as int),
        SCALE as int,
    );
    vstd::arithmetic::div_mod::lemma_div_pos_is_pos(u * u, SCALE as int);
    vstd::arithmetic::div_mod::lemma_div_multiples_vanish(SCALE as int, SCALE as int);
}

/// Saturating addition of two fixed-point values.
pub fn add_fp(a: i64, b: i64) -> (r: i64)
    ensures
        r == clamp_value(a + b),
{
    clamp128((a as i128) + (b as i128))
}

/// Saturating subtraction of two fixed-point values.
pub fn sub_fp(a: i64, b: i64) -> (r: i64)
    ensures
        r == clamp_value(a - b),
{
    clamp128((a as i128) - (b as i128))
}

} // verus!
