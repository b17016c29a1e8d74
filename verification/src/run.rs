//! The experiment harness: repeated runs over parameter grids.
//!
//! Each grid point couples one Agent, one Bandit and one Game, repeats many
//! runs, and averages the per-iteration win indicator and reward. Everything
//! here computes on plain fixed-point values; writing the result tables and
//! scheduling grid points over worker threads is left to the caller.

use vstd::prelude::*;

use crate::bandit::Bandit;
use crate::bandit::BinomialBandit;
use crate::fixed::clamp_value;
use crate::random::random_i64;
use crate::util::HarmonicStepper;

pub use greedy_bernoulli::greedy_bernoulli;
pub use greedy_bernoulli::greedy_bernoulli_outcome;
pub use pair_bernoulli::bernoulli_pairs;
pub use pair_bernoulli::pair_bernoulli;
pub use pair_bernoulli::pair_epsilon_outcome;
pub use pair_bernoulli::pair_greedy_outcome;
pub use pair_bernoulli::pair_optimistic_outcome;
pub use pair_bernoulli::pair_probs;
pub use pair_bernoulli::policy_ok;
pub use pair_bernoulli::prob_ok;
pub use multiple_runs::lemma_rewards_col_sum_bounded;
pub use multiple_runs::multiple_runs;
pub use multiple_runs::multiple_runs_outcome;
pub use multiple_runs::multiple_runs_witness;
pub use multiple_runs::rerun_link;
pub use multiple_runs::reset_link;
pub use multiple_runs::rewards_col_sum;
pub use multiple_runs::runs_linked;
pub use multiple_runs::wins_col_sum;
pub use sequential_bernoulli::sequential_bernoulli;
pub use sequential_bernoulli::sequential_point_outcome;
pub use sequential_bernoulli::sequential_policy_ok;
pub use sequential_bernoulli::spec_increment;
pub use sequential_bernoulli::sweep_probs;

mod greedy_bernoulli;
mod pair_bernoulli;
mod multiple_runs;
mod sequential_bernoulli;

verus! {

/// The decision policy a grid point plays, with its one hyperparameter as a
/// fixed-point value.
#[derive(Clone, Copy)]
pub enum Policy {
    /// Always exploit the best estimate.
    Greedy,
    /// Explore a random arm with this probability.
    EpsilonGreedy(i64),
    /// Upper-confidence exploration with this confidence constant.
    Optimistic(i64),
}

/// The lower end of the narrow initial-estimate window around a starting
/// value.
pub open spec fn window_lo(agent_start: i64) -> i64 {
    clamp_value(agent_start - 100) as i64
}

/// The upper end of the narrow initial-estimate window around a starting
/// value.
pub open spec fn window_hi(agent_start: i64) -> i64 {
    clamp_value(agent_start + 100) as i64
}

/// The bandit is a Bernoulli bandit: one trial per arm, with the given
/// success probabilities.
pub open spec fn single_trial_bandit(b: BinomialBandit, probs: Seq<i64>) -> bool {
    &&& b.wf()
    &&& b.probs@ == probs
    &&& b.nums@.len() == probs.len()
    &&& forall|i: int| 0 <= i < b.nums@.len() ==> #[trigger] b.nums@[i] == 1
}

/// The stepper is a freshly built harmonic stepper with warm-up one, one
/// counter per arm.
pub open spec fn fresh_harmonic(s: HarmonicStepper, arms: int) -> bool {
    &&& s.warm_up == 1
    &&& s.step_size@.len() == arms
    &&& forall|i: int| 0 <= i < arms ==> #[trigger] s.step_size@[i] == 1
}

/// Every estimate lies in the half-open window.
pub open spec fn estimates_in(q: Seq<i64>, lo: i64, hi: i64) -> bool {
    forall|i: int| 0 <= i < q.len() ==> lo <= #[trigger] q[i] < hi
}

/// Draws a fresh vector of initial estimates, one uniform draw from
/// `[lo, hi)` per arm.
pub(crate) fn random_init(lo: i64, hi: i64, len: usize) -> (r: Vec<i64>)
    requires
        lo < hi,
    ensures
        r@.len() == len,
        forall|i: int| 0 <= i < len ==> lo <= #[trigger] r@[i] < hi,
{
    let mut out: Vec<i64> = Vec::new();
    let mut k: usize = 0;
    while k < len
        invariant
            k <= len,
            lo < hi,
            out@.len() == k,
            forall|i: int| 0 <= i < k ==> lo <= #[trigger] out@[i] < hi,
        decreases len - k,
    {
        out.push(random_i64(lo, hi));
        k = k + 1;
    }
    out
}

} // verus!
