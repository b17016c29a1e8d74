//! A bandit whose arms distribute rewards according to exponential
//! distributions.

use vstd::prelude::*;

use crate::bandit::bandit::Bandit;
use crate::bandit::sampling::neg_ln_unit;
use crate::fixed::clamp_value;
use crate::fixed::div_fp;
use crate::fixed::lemma_tdiv_magnitude;
use crate::fixed::spec_div_fp;
use crate::fixed::SCALE;
use crate::fixed::VALUE_MAX;
use crate::random::random_i64;
use crate::util::int_seq_i64;
use crate::util::is_first_max;
use crate::util::ArgBounds;

verus! {

/// The mean (and standard deviation) of an exponential arm with rate
/// `lambda`: the fixed-point inverse `1 / lambda`.
pub open spec fn spec_exponential_mean(lambda: int) -> int
    recommends
        lambda >= 1,
{
    clamp_value(spec_div_fp(SCALE as int, lambda))
}

/// A bandit whose arms distribute rewards according to exponential
/// distributions.
pub struct ExponentialBandit {
    /// Vector of the inverses of the distribution means, one rate per arm.
    pub lambdas: Vec<i64>,
    /// The cached index of the arm with the highest mean reward.
    pub best_arm: usize,
}

impl ExponentialBandit {
    /// Every rate is positive and there is at least one arm.
    pub open spec fn params_ok(&self) -> bool {
        &&& self.lambdas@.len() > 0
        &&& forall|i: int| 0 <= i < self.lambdas@.len() ==> #[trigger] self.lambdas@[i] >= 1
    }

    /// The per-arm means, as mathematical integers.
    pub open spec fn means_int(&self) -> Seq<int> {
        Seq::new(self.lambdas@.len(), |i: int| spec_exponential_mean(self.lambdas@[i] as int))
    }

    /// Initializes a new Bandit where each arm distributes rewards according
    /// to an exponential distribution.
    ///
    /// Construction fails exactly when no rate is given or a rate is not
    /// positive.
    pub fn new(lambdas: Vec<i64>) -> (r: Option<ExponentialBandit>)
        ensures
            r is Some <==> lambdas@.len() > 0 && (forall|i: int|
                0 <= i < lambdas@.len() ==> #[trigger] lambdas@[i] >= 1),
            r matches Some(b) ==> b.wf() && b.lambdas@ == lambdas@,
    {
        if lambdas.len() == 0 {
            return None;
        }
        let lmin: i64 = lambdas.val_min();
        if lmin < 1 {
            proof {
                let i = choose|i: int|
                    0 <= i < lambdas@.len() && int_seq_i64(lambdas@)[i] == lmin as int;
                assert(!(lambdas@[i] >= 1));
            }
            return None;
        }
        proof {
            assert forall|i: int| 0 <= i < lambdas@.len() implies #[trigger] lambdas@[i] >= 1 by {
                assert(int_seq_i64(lambdas@)[i] == lambdas@[i] as int);
            }
        }
        let mut means: Vec<i64> = Vec::new();
        let mut k: usize = 0;
        while k < lambdas.len()
            invariant
                k <= lambdas@.len(),
                forall|i: int| 0 <= i < lambdas@.len() ==> #[trigger] lambdas@[i] >= 1,
                means@.len() == k,
                forall|i: int|
                    0 <= i < k ==> #[trigger] means@[i] == spec_exponential_mean(
                        lambdas@[i] as int,
                    ),
            decreases lambdas@.len() - k,
        {
            means.push(div_fp(SCALE, lambdas[k]));
            k = k + 1;
        }
        let best: usize = means.arg_max();
        let bandit = ExponentialBandit { lambdas, best_arm: best };
        proof {
            assert(int_seq_i64(means@) =~= bandit.means_int());
        }
        Some(bandit)
    }
}

impl Bandit for ExponentialBandit {
    open spec fn wf(&self) -> bool {
        &&& self.params_ok()
        &&& is_first_max(self.means_int(), self.best_arm as int)
    }

    open spec fn reward_ok(&self, arm: int, x: i64) -> bool {
        x >= 0
    }

    open spec fn means_spec(&self) -> Seq<i64> {
        Seq::new(
            self.lambdas@.len(),
            |i: int| spec_exponential_mean(self.lambdas@[i] as int) as i64,
        )
    }

    open spec fn stds_spec(&self) -> Seq<i64> {
        self.means_spec()
    }

    /// Returns the number of arms on the bandit.
    fn arms(&self) -> (r: usize) {
        self.lambdas.len()
    }

    /// Returns the arm with the highest average reward.
    fn best_arm(&self) -> (r: usize) {
        proof {
            lemma_exponential_means_views_agree(*self);
        }
        self.best_arm
    }

    /// The maximum average reward over all the arms.
    fn max_reward(&self) -> (r: i64) {
        proof {
            lemma_exponential_means_views_agree(*self);
        }
        let best: usize = self.best_arm;
        let r: i64 = self.mean(best);
        proof {
            assert(int_seq_i64(self.means_spec())[best as int] == r as int);
        }
        r
    }

    /// The expected return of an arm.
    fn mean(&self, arm: usize) -> (r: i64) {
        div_fp(SCALE, self.lambdas[arm])
    }

    /// The expected return of every arm.
    fn means(&self) -> (r: Vec<i64>) {
        let mut means: Vec<i64> = Vec::new();
        let mut k: usize = 0;
        while k < self.lambdas.len()
            invariant
                self.wf(),
                k <= self.lambdas@.len(),
                means@.len() == k,
                forall|i: int| 0 <= i < k ==> #[trigger] means@[i] == self.means_spec()[i],
            decreases self.lambdas@.len() - k,
        {
            let m: i64 = self.mean(k);
            means.push(m);
            k = k + 1;
        }
        proof {
            assert(means@ =~= self.means_spec());
        }
        means
    }

    /// Determines the reward for pulling a given arm, by inverse-transform
    /// sampling: `-ln(1 - u) / lambda` for a uniform unit draw `u`.
    fn reward(&self, arm: usize) -> (r: i64)
        ensures
            r >= 0,
    {
        let u: i64 = random_i64(0, SCALE);
        let neg_ln: i64 = neg_ln_unit(SCALE - u);
        let out: i64 = div_fp(neg_ln, self.lambdas[arm]);
        proof {
            lemma_tdiv_magnitude((neg_ln as int) * (SCALE as int), self.lambdas@[arm as int] as int);
        }
        out
    }

    /// The standard deviation of an arm, which for an exponential
    /// distribution equals its mean.
    fn std_dev(&self, arm: usize) -> (r: i64) {
        div_fp(SCALE, self.lambdas[arm])
    }

    /// The standard deviations of all the arms.
    fn stds(&self) -> (r: Vec<i64>) {
        self.means()
    }
}

/// The bandit's means, read as `i64` values and as integers, agree.
proof fn lemma_exponential_means_views_agree(b: ExponentialBandit)
    requires
        b.params_ok(),
    ensures
        int_seq_i64(b.means_spec()) =~= b.means_int(),
{
    assert forall|i: int| 0 <= i < b.lambdas@.len() implies int_seq_i64(b.means_spec())[i]
        == b.means_int()[i] by {
        assert(-VALUE_MAX <= clamp_value(spec_div_fp(SCALE as int, b.lambdas@[i] as int))
            <= VALUE_MAX);
    }
}

} // verus!
