//! A bandit whose arms distribute rewards according to Gaussian
//! distributions.

use vstd::prelude::*;

use crate::bandit::bandit::Bandit;
use crate::bandit::sampling::standard_normal;
use crate::fixed::add_fp;
use crate::fixed::VALUE_MAX;
use crate::fixed::mul_fp;
use crate::util::int_seq_i64;
use crate::util::is_first_max;
use crate::util::ArgBounds;

verus! {

/// A bandit whose arms distribute rewards according to Gaussian
/// distributions.
pub struct GaussianBandit {
    /// Means of the arms.
    pub means: Vec<i64>,
    /// Standard deviations of the arms.
    pub stds: Vec<i64>,
    /// The cached index of the arm with the highest mean reward.
    pub best_arm: usize,
}

impl GaussianBandit {
    /// The parameter vectors match, every standard deviation is positive,
    /// and there is at least one arm.
    pub open spec fn params_ok(&self) -> bool {
        &&& self.means@.len() == self.stds@.len()
        &&& self.means@.len() > 0
        &&& forall|i: int| 0 <= i < self.stds@.len() ==> #[trigger] self.stds@[i] >= 1
    }

    /// Initializes a new Bandit where each arm distributes rewards according
    /// to a Gaussian distribution.
    ///
    /// Construction fails exactly when the vectors differ in length or are
    /// empty, or a standard deviation is not positive.
    pub fn new(means: Vec<i64>, stds: Vec<i64>) -> (r: Option<GaussianBandit>)
        ensures
            r is Some <==> means@.len() == stds@.len() && means@.len() > 0 && (forall|i: int|
                0 <= i < stds@.len() ==> #[trigger] stds@[i] >= 1),
            r matches Some(b) ==> b.wf() && b.means@ == means@ && b.stds@ == stds@,
    {
        if means.len() != stds.len() || means.len() == 0 {
            return None;
        }
        let smin: i64 = stds.val_min();
        if smin < 1 {
            proof {
                let i = choose|i: int|
                    0 <= i < stds@.len() && int_seq_i64(stds@)[i] == smin as int;
                assert(!(stds@[i] >= 1));
            }
            return None;
        }
        proof {
            assert forall|i: int| 0 <= i < stds@.len() implies #[trigger] stds@[i] >= 1 by {
                assert(int_seq_i64(stds@)[i] == stds@[i] as int);
            }
        }
        let best: usize = means.arg_max();
        Some(GaussianBandit { means, stds, best_arm: best })
    }
}

impl Bandit for GaussianBandit {
    open spec fn wf(&self) -> bool {
        &&& self.params_ok()
        &&& is_first_max(int_seq_i64(self.means@), self.best_arm as int)
    }

    open spec fn reward_ok(&self, arm: int, x: i64) -> bool {
        -VALUE_MAX <= x <= VALUE_MAX
    }

    open spec fn means_spec(&self) -> Seq<i64> {
        self.means@
    }

    open spec fn stds_spec(&self) -> Seq<i64> {
        self.stds@
    }

    /// Returns the number of arms on the bandit.
    fn arms(&self) -> (r: usize) {
        self.means.len()
    }

    /// Returns the arm with the highest average reward.
    fn best_arm(&self) -> (r: usize) {
        self.best_arm
    }

    /// The maximum average reward over all the arms.
    fn max_reward(&self) -> (r: i64) {
        let best: usize = self.best_arm;
        let r: i64 = self.means[best];
        proof {
            assert(int_seq_i64(self.means@)[best as int] == r as int);
        }
        r
    }

    /// The expected return of an arm.
    fn mean(&self, arm: usize) -> (r: i64) {
        self.means[arm]
    }

    /// The expected return of every arm.
    fn means(&self) -> (r: Vec<i64>) {
        let mut out: Vec<i64> = Vec::new();
        let mut k: usize = 0;
        while k < self.means.len()
            invariant
                k <= self.means@.len(),
                out@.len() == k,
                forall|i: int| 0 <= i < k ==> #[trigger] out@[i] == self.means@[i],
            decreases self.means@.len() - k,
        {
            out.push(self.means[k]);
            k = k + 1;
        }
        proof {
            assert(out@ =~= self.means@);
        }
        out
    }

    /// Determines the reward for pulling a given arm: the arm's mean plus a
    /// standard normal draw scaled by the arm's standard deviation.
    fn reward(&self, arm: usize) -> (r: i64) {
        let noise: i64 = standard_normal();
        add_fp(self.means[arm], mul_fp(self.stds[arm], noise))
    }

    /// The standard deviation of an arm.
    fn std_dev(&self, arm: usize) -> (r: i64) {
        self.stds[arm]
    }

    /// The standard deviations of all the arms.
    fn stds(&self) -> (r: Vec<i64>) {
        let mut out: Vec<i64> = Vec::new();
        let mut k: usize = 0;
        while k < self.stds.len()
            invariant
                k <= self.stds@.len(),
                out@.len() == k,
                forall|i: int| 0 <= i < k ==> #[trigger] out@[i] == self.stds@[i],
            decreases self.stds@.len() - k,
        {
            out.push(self.stds[k]);
            k = k + 1;
        }
        proof {
            assert(out@ =~= self.stds@);
        }
        out
    }
}

} // verus!
