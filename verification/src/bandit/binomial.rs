//! A bandit whose arms distribute rewards according to binomial
//! distributions.

use vstd::prelude::*;

use crate::bandit::bandit::Bandit;
use crate::fixed::lemma_mul_nonneg_le;
use crate::fixed::spec_sqrt_fp;
use crate::fixed::sqrt_fp;
use crate::fixed::tdiv;
use crate::fixed::tdiv128;
use crate::fixed::SCALE;
use crate::random::random_i64;
use crate::util::int_seq_i64;
use crate::util::int_seq_u32;
use crate::util::is_first_max;
use crate::util::ArgBounds;

verus! {

/// The mean of a binomial arm with `n` trials of success probability `p`
/// (fixed point): `n * p`.
pub open spec fn spec_binomial_mean(n: int, p: int) -> int {
    n * p
}

/// The standard deviation of a binomial arm: the fixed-point square root of
/// the variance `n * p * (1 - p)`.
pub open spec fn spec_binomial_std(n: int, p: int) -> int {
    spec_sqrt_fp(tdiv(n * p * (SCALE - p), SCALE as int))
}

/// A bandit whose arms distribute rewards according to binomial
/// distributions.
pub struct BinomialBandit {
    /// Vector of number of trials of a yes-no experiment, one per arm.
    pub nums: Vec<u32>,
    /// Vector of experiment success probabilities, as fixed-point values.
    pub probs: Vec<i64>,
    /// The cached index of the arm with the highest mean reward.
    pub best_arm: usize,
}

impl BinomialBandit {
    /// The parameter vectors match, every probability lies in `[0, 1]`,
    /// every trial count is positive, and the cached best arm is the first
    /// arm of maximum mean.
    pub open spec fn params_ok(&self) -> bool {
        &&& self.nums@.len() == self.probs@.len()
        &&& self.nums@.len() > 0
        &&& forall|i: int| 0 <= i < self.nums@.len() ==> #[trigger] self.nums@[i] >= 1
        &&& forall|i: int| 0 <= i < self.probs@.len() ==> 0 <= #[trigger] self.probs@[i] <= SCALE
    }

    /// Initializes a new Bandit where each arm distributes rewards according
    /// to a binomial distribution.
    ///
    /// Construction fails exactly when the vectors differ in length or are
    /// empty, a probability lies outside `[0, 1]`, or a trial count is zero.
    pub fn new(nums: Vec<u32>, probs: Vec<i64>) -> (r: Option<BinomialBandit>)
        ensures
            r is Some <==> nums@.len() == probs@.len() && nums@.len() > 0 && (forall|i: int|
                0 <= i < nums@.len() ==> #[trigger] nums@[i] >= 1) && (forall|i: int|
                0 <= i < probs@.len() ==> 0 <= #[trigger] probs@[i] <= SCALE),
            r matches Some(b) ==> b.wf() && b.nums@ == nums@ && b.probs@ == probs@,
    {
        if nums.len() != probs.len() || nums.len() == 0 {
            return None;
        }
        let pmax: i64 = probs.val_max();
        let pmin: i64 = probs.val_min();
        let nmin: u32 = nums.val_min();
        if pmax > SCALE || pmin < 0 || nmin < 1 {
            proof {
                if pmax > SCALE {
                    let i = choose|i: int|
                        0 <= i < probs@.len() && int_seq_i64(probs@)[i] == pmax as int;
                    assert(!(0 <= probs@[i] <= SCALE));
                } else if pmin < 0 {
                    let i = choose|i: int|
                        0 <= i < probs@.len() && int_seq_i64(probs@)[i] == pmin as int;
                    assert(!(0 <= probs@[i] <= SCALE));
                } else {
                    let i = choose|i: int|
                        0 <= i < nums@.len() && int_seq_u32(nums@)[i] == nmin as int;
                    assert(!(nums@[i] >= 1));
                }
            }
            return None;
        }
        proof {
            assert forall|i: int| 0 <= i < probs@.len() implies 0 <= #[trigger] probs@[i]
                <= SCALE by {
                assert(int_seq_i64(probs@)[i] == probs@[i] as int);
            }
            assert forall|i: int| 0 <= i < nums@.len() implies #[trigger] nums@[i] >= 1 by {
                assert(int_seq_u32(nums@)[i] == nums@[i] as int);
            }
        }
        let mut means: Vec<i64> = Vec::new();
        let mut k: usize = 0;
        while k < nums.len()
            invariant
                k <= nums@.len(),
                nums@.len() == probs@.len(),
                forall|i: int| 0 <= i < nums@.len() ==> #[trigger] nums@[i] >= 1,
                forall|i: int| 0 <= i < probs@.len() ==> 0 <= #[trigger] probs@[i] <= SCALE,
                means@.len() == k,
                forall|i: int|
                    0 <= i < k ==> means@[i] == spec_binomial_mean(
                        nums@[i] as int,
                        probs@[i] as int,
                    ),
            decreases nums@.len() - k,
        {
            let n: u32 = nums[k];
            let p: i64 = probs[k];
            proof {
                lemma_mul_nonneg_le(n as int, p as int, u32::MAX as int, SCALE as int);
            }
            means.push((n as i64) * p);
            k = k + 1;
        }
        let best: usize = means.arg_max();
        let bandit = BinomialBandit { nums, probs, best_arm: best };
        proof {
            assert(int_seq_i64(means@) =~= bandit.means_int());
        }
        Some(bandit)
    }

    /// The per-arm means, as mathematical integers.
    pub open spec fn means_int(&self) -> Seq<int> {
        Seq::new(
            self.nums@.len(),
            |i: int| spec_binomial_mean(self.nums@[i] as int, self.probs@[i] as int),
        )
    }
}

impl Bandit for BinomialBandit {
    open spec fn wf(&self) -> bool {
        &&& self.params_ok()
        &&& is_first_max(self.means_int(), self.best_arm as int)
    }

    open spec fn reward_ok(&self, arm: int, x: i64) -> bool {
        &&& 0 <= x <= self.nums@[arm] * SCALE
        &&& x % SCALE == 0
    }

    open spec fn means_spec(&self) -> Seq<i64> {
        Seq::new(
            self.nums@.len(),
            |i: int| spec_binomial_mean(self.nums@[i] as int, self.probs@[i] as int) as i64,
        )
    }

    open spec fn stds_spec(&self) -> Seq<i64> {
        Seq::new(
            self.nums@.len(),
            |i: int| spec_binomial_std(self.nums@[i] as int, self.probs@[i] as int) as i64,
        )
    }

    /// Returns the number of arms on the bandit.
    fn arms(&self) -> (r: usize) {
        self.nums.len()
    }

    /// Returns the arm with the highest average reward.
    fn best_arm(&self) -> (r: usize) {
        proof {
            lemma_binomial_means_views_agree(*self);
        }
        self.best_arm
    }

    /// The maximum average reward over all the arms.
    fn max_reward(&self) -> (r: i64) {
        proof {
            lemma_binomial_means_views_agree(*self);
        }
        let best: usize = self.best_arm;
        let r: i64 = self.mean(best);
        proof {
            assert(int_seq_i64(self.means_spec())[best as int] == r as int);
        }
        r
    }

    /// Computes the expected return of an arm.
    fn mean(&self, arm: usize) -> (r: i64) {
        let n: u32 = self.nums[arm];
        let p: i64 = self.probs[arm];
        proof {
            lemma_mul_nonneg_le(n as int, p as int, u32::MAX as int, SCALE as int);
        }
        (n as i64) * p
    }

    /// Computes the expected return of every arm.
    fn means(&self) -> (r: Vec<i64>) {
        let mut means: Vec<i64> = Vec::new();
        let mut k: usize = 0;
        while k < self.nums.len()
            invariant
                self.wf(),
                k <= self.nums@.len(),
                means@.len() == k,
                forall|i: int| 0 <= i < k ==> means@[i] == self.means_spec()[i],
            decreases self.nums@.len() - k,
        {
            let m: i64 = self.mean(k);
            means.push(m);
            k = k + 1;
        }
        proof {
            assert(means@ =~= self.means_spec());
        }
        means
    }

    /// Determines the reward for pulling a given arm: the number of
    /// successes in `n` independent trials of probability `p`, as a
    /// fixed-point value.
    fn reward(&self, arm: usize) -> (r: i64)
        ensures
            0 <= r <= self.nums@[arm as int] * SCALE,
            r % SCALE == 0,
    {
        let n: u32 = self.nums[arm];
        let p: i64 = self.probs[arm];
        let mut successes: u32 = 0;
        let mut t: u32 = 0;
        while t < n
            invariant
                successes <= t,
                t <= n,
            decreases n - t,
        {
            let u: i64 = random_i64(0, SCALE);
            if u < p {
                successes = successes + 1;
            }
            t = t + 1;
        }
        proof {
            vstd::arithmetic::div_mod::lemma_mod_multiples_basic(successes as int, SCALE as int);
        }
        (successes as i64) * SCALE
    }

    /// Computes the standard deviation of an arm.
    fn std_dev(&self, arm: usize) -> (r: i64) {
        let n: u32 = self.nums[arm];
        let p: i64 = self.probs[arm];
        proof {
            lemma_mul_nonneg_le(n as int, p as int, u32::MAX as int, SCALE as int);
            lemma_mul_nonneg_le(
                n as int * p as int,
                (SCALE - p) as int,
                u32::MAX as int * SCALE as int,
                SCALE as int,
            );
            crate::fixed::lemma_tdiv_magnitude(n as int * p as int * (SCALE - p) as int, SCALE as int);
        }
        let prod: i128 = (n as i128) * (p as i128) * ((SCALE - p) as i128);
        let variance: i64 = tdiv128(prod, SCALE as i128) as i64;
        sqrt_fp(variance)
    }

    /// Computes the standard deviation of every arm.
    fn stds(&self) -> (r: Vec<i64>) {
        let mut stds: Vec<i64> = Vec::new();
        let mut k: usize = 0;
        while k < self.nums.len()
            invariant
                self.wf(),
                k <= self.nums@.len(),
                stds@.len() == k,
                forall|i: int| 0 <= i < k ==> stds@[i] == self.stds_spec()[i],
            decreases self.nums@.len() - k,
        {
            let s: i64 = self.std_dev(k);
            stds.push(s);
            k = k + 1;
        }
        proof {
            assert(stds@ =~= self.stds_spec());
        }
        stds
    }
}

/// The bandit's means, read as `i64` values and as integers, agree: every
/// mean fits in the fixed-point value range.
proof fn lemma_binomial_means_views_agree(b: BinomialBandit)
    requires
        b.params_ok(),
    ensures
        int_seq_i64(b.means_spec()) =~= b.means_int(),
{
    assert forall|i: int| 0 <= i < b.nums@.len() implies int_seq_i64(b.means_spec())[i]
        == b.means_int()[i] by {
        lemma_mul_nonneg_le(b.nums@[i] as int, b.probs@[i] as int, u32::MAX as int, SCALE as int);
    }
}

} // verus!
