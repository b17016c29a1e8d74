//! A bandit whose arms distribute rewards according to gamma distributions.

use vstd::prelude::*;

use crate::bandit::bandit::Bandit;
use crate::bandit::sampling::neg_ln_unit;
use crate::bandit::sampling::standard_normal;
use crate::fixed::add_fp;
use crate::fixed::clamp_value;
use crate::fixed::div_fp;
use crate::fixed::exp_fp;
use crate::fixed::lemma_mul_nonneg_le;
use crate::fixed::lemma_tdiv_magnitude;
use crate::fixed::ln_fp;
use crate::fixed::mul_fp;
use crate::fixed::spec_mul_fp;
use crate::fixed::spec_sqrt_fp;
use crate::fixed::sqrt_fp;
use crate::fixed::sub_fp;
use crate::fixed::tdiv128;
use crate::fixed::SCALE;
use crate::fixed::VALUE_MAX;
use crate::random::random_i64;
use crate::util::int_seq_i64;
use crate::util::is_first_max;
use crate::util::ArgBounds;

verus! {

/// The mean of a gamma arm with shape `alpha` and scale `theta`: their
/// fixed-point product.
pub open spec fn spec_gamma_mean(alpha: int, theta: int) -> int {
    clamp_value(spec_mul_fp(alpha, theta))
}

/// The standard deviation of a gamma arm: `sqrt(alpha) * theta`.
pub open spec fn spec_gamma_std(alpha: int, theta: int) -> int {
    clamp_value(spec_mul_fp(spec_sqrt_fp(alpha), theta))
}

/// A bandit whose arms distribute rewards according to gamma distributions.
pub struct GammaBandit {
    /// Vector of distribution shape parameters.
    pub alphas: Vec<i64>,
    /// Vector of distribution scale parameters.
    pub thetas: Vec<i64>,
    /// The cached index of the arm with the highest mean reward.
    pub best_arm: usize,
}

impl GammaBandit {
    /// The parameter vectors match, every shape and scale is positive, and
    /// there is at least one arm.
    pub open spec fn params_ok(&self) -> bool {
        &&& self.alphas@.len() == self.thetas@.len()
        &&& self.alphas@.len() > 0
        &&& forall|i: int| 0 <= i < self.alphas@.len() ==> #[trigger] self.alphas@[i] >= 1
        &&& forall|i: int| 0 <= i < self.thetas@.len() ==> #[trigger] self.thetas@[i] >= 1
    }

    /// The per-arm means, as mathematical integers.
    pub open spec fn means_int(&self) -> Seq<int> {
        Seq::new(
            self.alphas@.len(),
            |i: int| spec_gamma_mean(self.alphas@[i] as int, self.thetas@[i] as int),
        )
    }

    /// Initializes a new Bandit where each arm distributes rewards according
    /// to a gamma distribution.
    ///
    /// Construction fails exactly when the vectors differ in length or are
    /// empty, or a shape or scale parameter is not positive.
    pub fn new(alphas: Vec<i64>, thetas: Vec<i64>) -> (r: Option<GammaBandit>)
        ensures
            r is Some <==> alphas@.len() == thetas@.len() && alphas@.len() > 0 && (forall|i: int|
                0 <= i < alphas@.len() ==> #[trigger] alphas@[i] >= 1) && (forall|i: int|
                0 <= i < thetas@.len() ==> #[trigger] thetas@[i] >= 1),
            r matches Some(b) ==> b.wf() && b.alphas@ == alphas@ && b.thetas@ == thetas@,
    {
        if alphas.len() != thetas.len() || alphas.len() == 0 {
            return None;
        }
        let amin: i64 = alphas.val_min();
        let tmin: i64 = thetas.val_min();
        if amin < 1 || tmin < 1 {
            proof {
                if amin < 1 {
                    let i = choose|i: int|
                        0 <= i < alphas@.len() && int_seq_i64(alphas@)[i] == amin as int;
                    assert(!(alphas@[i] >= 1));
                } else {
                    let i = choose|i: int|
                        0 <= i < thetas@.len() && int_seq_i64(thetas@)[i] == tmin as int;
                    assert(!(thetas@[i] >= 1));
                }
            }
            return None;
        }
        proof {
            assert forall|i: int| 0 <= i < alphas@.len() implies #[trigger] alphas@[i] >= 1 by {
                assert(int_seq_i64(alphas@)[i] == alphas@[i] as int);
            }
            assert forall|i: int| 0 <= i < thetas@.len() implies #[trigger] thetas@[i] >= 1 by {
                assert(int_seq_i64(thetas@)[i] == thetas@[i] as int);
            }
        }
        let mut means: Vec<i64> = Vec::new();
        let mut k: usize = 0;
        while k < alphas.len()
            invariant
                k <= alphas@.len(),
                alphas@.len() == thetas@.len(),
                means@.len() == k,
                forall|i: int|
                    0 <= i < k ==> #[trigger] means@[i] == spec_gamma_mean(
                        alphas@[i] as int,
                        thetas@[i] as int,
                    ),
            decreases alphas@.len() - k,
        {
            means.push(mul_fp(alphas[k], thetas[k]));
            k = k + 1;
        }
        let best: usize = means.arg_max();
        let bandit = GammaBandit { alphas, thetas, best_arm: best };
        proof {
            assert(int_seq_i64(means@) =~= bandit.means_int());
        }
        Some(bandit)
    }
}

impl Bandit for GammaBandit {
    open spec fn wf(&self) -> bool {
        &&& self.params_ok()
        &&& is_first_max(self.means_int(), self.best_arm as int)
    }

    open spec fn reward_ok(&self, arm: int, x: i64) -> bool {
        x >= 0
    }

    open spec fn means_spec(&self) -> Seq<i64> {
        Seq::new(
            self.alphas@.len(),
            |i: int| spec_gamma_mean(self.alphas@[i] as int, self.thetas@[i] as int) as i64,
        )
    }

    open spec fn stds_spec(&self) -> Seq<i64> {
        Seq::new(
            self.alphas@.len(),
            |i: int| spec_gamma_std(self.alphas@[i] as int, self.thetas@[i] as int) as i64,
        )
    }

    /// Returns the number of arms on the bandit.
    fn arms(&self) -> (r: usize) {
        self.alphas.len()
    }

    /// Returns the arm with the highest average reward.
    fn best_arm(&self) -> (r: usize) {
        proof {
            lemma_gamma_means_views_agree(*self);
        }
        self.best_arm
    }

    /// The maximum average reward over all the arms.
    fn max_reward(&self) -> (r: i64) {
        proof {
            lemma_gamma_means_views_agree(*self);
        }
        let best: usize = self.best_arm;
        let r: i64 = self.mean(best);
        proof {
            assert(int_seq_i64(self.means_spec())[best as int] == r as int);
        }
        r
    }

    /// The expected return of an arm.
    fn mean(&self, arm: usize) -> (r: i64) {
        mul_fp(self.alphas[arm], self.thetas[arm])
    }

    /// The expected return of every arm.
    fn means(&self) -> (r: Vec<i64>) {
        let mut means: Vec<i64> = Vec::new();
        let mut k: usize = 0;
        while k < self.alphas.len()
            invariant
                self.wf(),
                k <= self.alphas@.len(),
                means@.len() == k,
                forall|i: int| 0 <= i < k ==> #[trigger] means@[i] == self.means_spec()[i],
            decreases self.alphas@.len() - k,
        {
            let m: i64 = self.mean(k);
            means.push(m);
            k = k + 1;
        }
        proof {
            assert(means@ =~= self.means_spec());
        }
        means
    }

    /// Determines the reward for pulling a given arm, by rejection sampling
    /// over normal and uniform draws.
    ///
    /// For a shape below one, a draw for the boosted shape is scaled down by
    /// a power of a uniform draw. A rejection round redraws; after many
    /// failed rounds the arm's mean is returned, an event of vanishing
    /// probability.
    fn reward(&self, arm: usize) -> (r: i64)
        ensures
            r >= 0,
    {
        let alpha: i64 = self.alphas[arm];
        let theta: i64 = self.thetas[arm];
        let boosted: i64 = if alpha < SCALE {
            alpha + SCALE
        } else {
            alpha
        };
        let d: i64 = sub_fp(boosted, 333_333_333);
        let nine_d: i64 = mul_fp(d, 9 * SCALE);
        proof {
            lemma_tdiv_magnitude(d as int * (9 * SCALE) as int, SCALE as int);
            lemma_mul_nonneg_le(d as int, (9 * SCALE) as int, VALUE_MAX as int, 9 * SCALE as int);
            assert(9 * (SCALE as int) <= d as int * (9 * SCALE) as int) by (nonlinear_arith)
                requires
                    d >= 1,
                    SCALE > 0,
            ;
            vstd::arithmetic::div_mod::lemma_div_is_ordered(
                9 * (SCALE as int),
                d as int * (9 * SCALE) as int,
                SCALE as int,
            );
        }
        let root: i64 = sqrt_fp(nine_d);
        let c: i64 = div_fp(SCALE, root);
        let mut attempts: u32 = 0;
        while attempts < 64
            invariant
                attempts <= 64,
                self.wf(),
                arm < self.alphas@.len(),
                alpha == self.alphas@[arm as int],
                theta == self.thetas@[arm as int],
                alpha >= 1,
                theta >= 1,
                d >= 1,
            decreases 64 - attempts,
        {
            let x: i64 = standard_normal();
            let v0: i64 = add_fp(SCALE, mul_fp(c, x));
            if v0 >= 1 {
                let v3: i64 = mul_fp(mul_fp(v0, v0), v0);
                if v3 >= 1 {
                    let u: i64 = random_i64(1, SCALE);
                    let lhs: i64 = -neg_ln_unit(u);
                    let xx: i64 = mul_fp(x, x);
                    proof {
                        lemma_tdiv_magnitude(xx as int, 2);
                    }
                    let half_xx: i64 = tdiv128(xx as i128, 2) as i64;
                    let ln_v: i64 = if v3 >= SCALE {
                        ln_fp(v3)
                    } else {
                        -neg_ln_unit(v3)
                    };
                    let rhs: i64 = add_fp(half_xx, mul_fp(d, add_fp(sub_fp(SCALE, v3), ln_v)));
                    if lhs < rhs {
                        let base: i64 = mul_fp(theta, mul_fp(d, v3));
                        if alpha < SCALE {
                            let w: i64 = random_i64(1, SCALE);
                            let scaled_ln: i64 = div_fp(neg_ln_unit(w), alpha);
                            let factor: i64 = exp_fp(-scaled_ln);
                            return mul_fp(base, factor);
                        }
                        return base;
                    }
                }
            }
            attempts = attempts + 1;
        }
        self.mean(arm)
    }

    /// The standard deviation of an arm.
    fn std_dev(&self, arm: usize) -> (r: i64) {
        let root: i64 = sqrt_fp(self.alphas[arm]);
        mul_fp(root, self.thetas[arm])
    }

    /// The standard deviations of all the arms.
    fn stds(&self) -> (r: Vec<i64>) {
        let mut stds: Vec<i64> = Vec::new();
        let mut k: usize = 0;
        while k < self.alphas.len()
            invariant
                self.wf(),
                k <= self.alphas@.len(),
                stds@.len() == k,
                forall|i: int| 0 <= i < k ==> #[trigger] stds@[i] == self.stds_spec()[i],
            decreases self.alphas@.len() - k,
        {
            let s: i64 = self.std_dev(k);
            stds.push(s);
            k = k + 1;
        }
        proof {
            assert(stds@ =~= self.stds_spec());
        }
        stds
    }
}

/// The bandit's means, read as `i64` values and as integers, agree.
proof fn lemma_gamma_means_views_agree(b: GammaBandit)
    requires
        b.params_ok(),
    ensures
        int_seq_i64(b.means_spec()) =~= b.means_int(),
{
    assert forall|i: int| 0 <= i < b.alphas@.len() implies int_seq_i64(b.means_spec())[i]
        == b.means_int()[i] by {
        assert(-VALUE_MAX <= clamp_value(
            spec_mul_fp(b.alphas@[i] as int, b.thetas@[i] as int),
        ) <= VALUE_MAX);
    }
}

} // verus!
