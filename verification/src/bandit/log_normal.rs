//! A bandit whose arms distribute rewards according to log-normal
//! distributions.

use vstd::prelude::*;

use crate::bandit::bandit::Bandit;
use crate::bandit::sampling::standard_normal;
use crate::fixed::add_fp;
use crate::fixed::clamp_value;
use crate::fixed::exp_fp;
use crate::fixed::lemma_tdiv_magnitude;
use crate::fixed::mul_fp;
use crate::fixed::spec_exp_fp;
use crate::fixed::spec_mul_fp;
use crate::fixed::spec_sqrt_fp;
use crate::fixed::sqrt_fp;
use crate::fixed::tdiv;
use crate::fixed::tdiv128;
use crate::fixed::SCALE;
use crate::fixed::VALUE_MAX;
use crate::util::int_seq_i64;
use crate::util::is_first_max;
use crate::util::ArgBounds;

verus! {

/// Half the fixed-point square of `sigma`.
pub open spec fn spec_half_square(sigma: int) -> int {
    tdiv(clamp_value(spec_mul_fp(sigma, sigma)), 2)
}

/// The mean of a log-normal arm with location `mu` and shape `sigma`:
/// `exp(mu + sigma^2 / 2)` in saturating fixed point.
pub open spec fn spec_log_normal_mean(mu: int, sigma: int) -> int {
    spec_exp_fp(clamp_value(mu + spec_half_square(sigma)))
}

/// The standard deviation of a log-normal arm:
/// `sqrt((exp(sigma^2) - 1) * exp(2 mu + sigma^2))` in saturating fixed
/// point.
pub open spec fn spec_log_normal_std(mu: int, sigma: int) -> int {
    let s2 = clamp_value(spec_mul_fp(sigma, sigma));
    let e1 = clamp_value(spec_exp_fp(s2) - SCALE);
    let e2 = spec_exp_fp(clamp_value(clamp_value(mu + mu) + s2));
    spec_sqrt_fp(clamp_value(spec_mul_fp(e1, e2)))
}

/// A bandit whose arms distribute rewards according to log-normal
/// distributions.
pub struct LogNormalBandit {
    /// Means of the base normal distributions.
    pub mus: Vec<i64>,
    /// Standard deviations of the base normal distributions.
    pub sigmas: Vec<i64>,
    /// The cached index of the arm with the highest mean reward.
    pub best_arm: usize,
}

impl LogNormalBandit {
    /// The parameter vectors match, every shape is positive, and there is at
    /// least one arm.
    pub open spec fn params_ok(&self) -> bool {
        &&& self.mus@.len() == self.sigmas@.len()
        &&& self.mus@.len() > 0
        &&& forall|i: int| 0 <= i < self.sigmas@.len() ==> #[trigger] self.sigmas@[i] >= 1
    }

    /// The per-arm means, as mathematical integers.
    pub open spec fn means_int(&self) -> Seq<int> {
        Seq::new(
            self.mus@.len(),
            |i: int| spec_log_normal_mean(self.mus@[i] as int, self.sigmas@[i] as int),
        )
    }

    /// Initializes a new Bandit where each arm distributes rewards according
    /// to a log-normal distribution.
    ///
    /// Construction fails exactly when the vectors differ in length or are
    /// empty, or a shape parameter is not positive.
    pub fn new(mus: Vec<i64>, sigmas: Vec<i64>) -> (r: Option<LogNormalBandit>)
        ensures
            r is Some <==> mus@.len() == sigmas@.len() && mus@.len() > 0 && (forall|i: int|
                0 <= i < sigmas@.len() ==> #[trigger] sigmas@[i] >= 1),
            r matches Some(b) ==> b.wf() && b.mus@ == mus@ && b.sigmas@ == sigmas@,
    {
        if mus.len() != sigmas.len() || mus.len() == 0 {
            return None;
        }
        let smin: i64 = sigmas.val_min();
        if smin < 1 {
            proof {
                let i = choose|i: int|
                    0 <= i < sigmas@.len() && int_seq_i64(sigmas@)[i] == smin as int;
                assert(!(sigmas@[i] >= 1));
            }
            return None;
        }
        proof {
            assert forall|i: int| 0 <= i < sigmas@.len() implies #[trigger] sigmas@[i] >= 1 by {
                assert(int_seq_i64(sigmas@)[i] == sigmas@[i] as int);
            }
        }
        let mut means: Vec<i64> = Vec::new();
        let mut k: usize = 0;
        while k < mus.len()
            invariant
                k <= mus@.len(),
                mus@.len() == sigmas@.len(),
                means@.len() == k,
                forall|i: int|
                    0 <= i < k ==> #[trigger] means@[i] == spec_log_normal_mean(
                        mus@[i] as int,
                        sigmas@[i] as int,
                    ),
            decreases mus@.len() - k,
        {
            means.push(log_normal_mean(mus[k], sigmas[k]));
            k = k + 1;
        }
        let best: usize = means.arg_max();
        let bandit = LogNormalBandit { mus, sigmas, best_arm: best };
        proof {
            assert(int_seq_i64(means@) =~= bandit.means_int());
        }
        Some(bandit)
    }
}

/// Computes the mean of one log-normal arm in fixed point.
fn log_normal_mean(mu: i64, sigma: i64) -> (r: i64)
    ensures
        r == spec_log_normal_mean(mu as int, sigma as int),
        0 <= r <= VALUE_MAX,
{
    let s2: i64 = mul_fp(sigma, sigma);
    proof {
        lemma_tdiv_magnitude(s2 as int, 2);
    }
    let half: i64 = tdiv128(s2 as i128, 2) as i64;
    exp_fp(add_fp(mu, half))
}

impl Bandit for LogNormalBandit {
    open spec fn wf(&self) -> bool {
        &&& self.params_ok()
        &&& is_first_max(self.means_int(), self.best_arm as int)
    }

    open spec fn reward_ok(&self, arm: int, x: i64) -> bool {
        x >= 0
    }

    open spec fn means_spec(&self) -> Seq<i64> {
        Seq::new(
            self.mus@.len(),
            |i: int| spec_log_normal_mean(self.mus@[i] as int, self.sigmas@[i] as int) as i64,
        )
    }

    open spec fn stds_spec(&self) -> Seq<i64> {
        Seq::new(
            self.mus@.len(),
            |i: int| spec_log_normal_std(self.mus@[i] as int, self.sigmas@[i] as int) as i64,
        )
    }

    /// Returns the number of arms on the bandit.
    fn arms(&self) -> (r: usize) {
        self.mus.len()
    }

    /// Returns the arm with the highest average reward.
    fn best_arm(&self) -> (r: usize) {
        proof {
            lemma_log_normal_means_views_agree(*self);
        }
        self.best_arm
    }

    /// The maximum average reward over all the arms.
    fn max_reward(&self) -> (r: i64) {
        proof {
            lemma_log_normal_means_views_agree(*self);
        }
        let best: usize = self.best_arm;
        let r: i64 = self.mean(best);
        proof {
            assert(int_seq_i64(self.means_spec())[best as int] == r as int);
        }
        r
    }

    /// The expected return of an arm.
    fn mean(&self, arm: usize) -> (r: i64) {
        log_normal_mean(self.mus[arm], self.sigmas[arm])
    }

    /// The expected return of every arm.
    fn means(&self) -> (r: Vec<i64>) {
        let mut means: Vec<i64> = Vec::new();
        let mut k: usize = 0;
        while k < self.mus.len()
            invariant
                self.wf(),
                k <= self.mus@.len(),
                means@.len() == k,
                forall|i: int| 0 <= i < k ==> #[trigger] means@[i] == self.means_spec()[i],
            decreases self.mus@.len() - k,
        {
            let m: i64 = self.mean(k);
            means.push(m);
            k = k + 1;
        }
        proof {
            assert(means@ =~= self.means_spec());
        }
        means
    }

    /// Determines the reward for pulling a given arm: the exponential of a
    /// Gaussian draw with the arm's location and shape.
    fn reward(&self, arm: usize) -> (r: i64)
        ensures
            r >= 0,
    {
        let noise: i64 = standard_normal();
        let g: i64 = add_fp(self.mus[arm], mul_fp(self.sigmas[arm], noise));
        exp_fp(g)
    }

    /// The standard deviation of an arm.
    fn std_dev(&self, arm: usize) -> (r: i64) {
        let mu: i64 = self.mus[arm];
        let sigma: i64 = self.sigmas[arm];
        let s2: i64 = mul_fp(sigma, sigma);
        let e1: i64 = exp_fp(s2);
        proof {
            lemma_square_fp_unit_sign(sigma as int);
        }
        let em1: i64 = e1 - SCALE;
        let e2: i64 = exp_fp(add_fp(add_fp(mu, mu), s2));
        let prod: i64 = mul_fp(em1, e2);
        proof {
            crate::fixed::lemma_mul_nonneg_le(
                em1 as int,
                e2 as int,
                VALUE_MAX as int,
                VALUE_MAX as int,
            );
            lemma_tdiv_magnitude(em1 as int * e2 as int, SCALE as int);
        }
        sqrt_fp(prod)
    }

    /// The standard deviations of all the arms.
    fn stds(&self) -> (r: Vec<i64>) {
        let mut stds: Vec<i64> = Vec::new();
        let mut k: usize = 0;
        while k < self.mus.len()
            invariant
                self.wf(),
                k <= self.mus@.len(),
                stds@.len() == k,
                forall|i: int| 0 <= i < k ==> #[trigger] stds@[i] == self.stds_spec()[i],
            decreases self.mus@.len() - k,
        {
            let s: i64 = self.std_dev(k);
            stds.push(s);
            k = k + 1;
        }
        proof {
            assert(stds@ =~= self.stds_spec());
        }
        stds
    }
}

/// The fixed-point square of any value is nonnegative.
proof fn lemma_square_fp_unit_sign(sigma: int)
    ensures
        0 <= clamp_value(spec_mul_fp(sigma, sigma)),
{
    assert(0 <= sigma * sigma) by (nonlinear_arith);
    lemma_tdiv_magnitude(sigma * sigma, SCALE as int);
}

/// The bandit's means, read as `i64` values and as integers, agree.
proof fn lemma_log_normal_means_views_agree(b: LogNormalBandit)
    requires
        b.params_ok(),
    ensures
        int_seq_i64(b.means_spec()) =~= b.means_int(),
{
    assert forall|i: int| 0 <= i < b.mus@.len() implies int_seq_i64(b.means_spec())[i]
        == b.means_int()[i] by {
        crate::fixed::lemma_exp_fp_bounds(
            clamp_value(b.mus@[i] as int + spec_half_square(b.sigmas@[i] as int)),
        );
    }
}

} // verus!
