//! Uniform random draws, relied on from the rand crate.
//!
//! These are the only unverified calls the library makes: every distribution
//! the Bandits sample and every stochastic choice the Agents take is built in
//! verified code from these uniform draws.

use vstd::prelude::*;

verus! {

/// Relies on rand's `Rng::gen_range` over the exclusive range `lo..hi`: the
/// result lies in `[lo, hi)`. The call panics only on an empty range, which
/// the precondition rules out. Nothing more is assumed: the draw may differ
/// between calls on equal arguments.
#[verifier::external_body]
pub(crate) fn random_i64(lo: i64, hi: i64) -> (r: i64)
    requires
        lo < hi,
    ensures
        lo <= r < hi,
{
    rand::Rng::gen_range(&mut rand::thread_rng(), lo..hi)
}

/// Relies on rand's `Rng::gen_range` over the exclusive range `0..n`: the
/// result is an index below `n`. The call panics only on an empty range,
/// which the precondition rules out.
#[verifier::external_body]
pub(crate) fn random_index(n: usize) -> (r: usize)
    requires
        n > 0,
    ensures
        r < n,
{
    rand::Rng::gen_range(&mut rand::thread_rng(), 0..n)
}

} // verus!
