//! Random draws from continuous distributions, built in verified fixed-point
//! arithmetic from uniform integer draws.

use vstd::prelude::*;

use crate::fixed::add_fp;
use crate::fixed::div_fp;
use crate::fixed::lemma_inverse_fp;
use crate::fixed::lemma_square_fp_unit;
use crate::fixed::lemma_tdiv_magnitude;
use crate::fixed::ln_fp;
use crate::fixed::mul_fp;
use crate::fixed::sqrt_fp;
use crate::fixed::SCALE;
use crate::fixed::VALUE_MAX;
use crate::random::random_i64;

verus! {

/// The fixed-point logarithm of a positive unit-interval value, negated:
/// `-ln(u)` for `u` in `(0, 1]`, always nonnegative.
pub(crate) fn neg_ln_unit(u: i64) -> (r: i64)
    requires
        1 <= u <= SCALE,
    ensures
        0 <= r <= VALUE_MAX,
{
    proof {
        lemma_inverse_fp(u as int);
    }
    let inv: i64 = div_fp(SCALE, u);
    ln_fp(inv)
}

/// One draw from the standard normal distribution, by the polar method over
/// uniform fixed-point draws.
///
/// A rejection round redraws the pair; after many failed rounds the central
/// value zero is returned, an event of vanishing probability. Every
/// arithmetic step saturates at the value range, so extreme tails are
/// truncated there.
pub(crate) fn standard_normal() -> (r: i64)
    ensures
        -VALUE_MAX <= r <= VALUE_MAX,
{
    let mut attempts: u32 = 0;
    while attempts < 64
        invariant
            attempts <= 64,
        decreases 64 - attempts,
    {
        let u: i64 = random_i64(1 - SCALE, SCALE);
        let v: i64 = random_i64(1 - SCALE, SCALE);
        proof {
            lemma_square_fp_unit(u as int);
            lemma_square_fp_unit(v as int);
        }
        let s: i64 = mul_fp(u, u) + mul_fp(v, v);
        if 0 < s && s < SCALE {
            let minus_two_ln_s: i64 = add_fp(neg_ln_unit(s), neg_ln_unit(s));
            let ratio: i64 = div_fp(minus_two_ln_s, s);
            proof {
                lemma_tdiv_magnitude((minus_two_ln_s as int) * (SCALE as int), s as int);
            }
            let factor: i64 = sqrt_fp(ratio);
            return mul_fp(u, factor);
        }
        attempts = attempts + 1;
    }
    0
}

} // verus!
