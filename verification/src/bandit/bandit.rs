//! The common Bandit interface.

use vstd::prelude::*;

use crate::fixed::VALUE_MAX;
use crate::util::int_seq_i64;
use crate::util::is_first_max;
use crate::util::is_max_val;

verus! {

/// A trait for common members of the Bandits.
///
/// A Bandit has a fixed number of arms, each with a fixed-point mean and
/// standard deviation; pulling an arm draws a random reward. The best arm is
/// the first arm with the highest mean, precomputed at construction; the
/// Agent never sees it, it only serves to measure regret.
pub trait Bandit: Sized {
    /// The Bandit's parameters are well formed and its cached best arm is
    /// the first arm of maximum mean.
    spec fn wf(&self) -> bool;

    /// The per-arm mean rewards, as fixed-point values.
    spec fn means_spec(&self) -> Seq<i64>;

    /// The per-arm reward standard deviations, as fixed-point values.
    spec fn stds_spec(&self) -> Seq<i64>;

    /// The number of arms of the Bandit.
    fn arms(&self) -> (r: usize)
        requires
            self.wf(),
        ensures
            r == self.means_spec().len(),
    ;

    /// The arm with the highest average reward, ties resolved to the first.
    fn best_arm(&self) -> (r: usize)
        requires
            self.wf(),
        ensures
            is_first_max(int_seq_i64(self.means_spec()), r as int),
    ;

    /// The maximum average reward over all the arms.
    fn max_reward(&self) -> (r: i64)
        requires
            self.wf(),
        ensures
            is_max_val(int_seq_i64(self.means_spec()), r as int),
    ;

    /// The average reward of a given arm.
    fn mean(&self, arm: usize) -> (r: i64)
        requires
            self.wf(),
            arm < self.means_spec().len(),
        ensures
            r == self.means_spec()[arm as int],
    ;

    /// The average rewards of all the arms.
    fn means(&self) -> (r: Vec<i64>)
        requires
            self.wf(),
        ensures
            r@ == self.means_spec(),
    ;

    /// What is known of a reward drawn from the given arm: each
    /// implementation pins the shape of its samples (a whole success count,
    /// a nonnegative value) as far as the distribution family allows.
    spec fn reward_ok(&self, arm: int, x: i64) -> bool;

    /// The reward from a pull of a given arm: a random draw from the arm's
    /// distribution, within the fixed-point value range.
    fn reward(&self, arm: usize) -> (r: i64)
        requires
            self.wf(),
            arm < self.means_spec().len(),
        ensures
            -VALUE_MAX <= r <= VALUE_MAX,
            self.reward_ok(arm as int, r),
    ;

    /// The standard deviation of a given arm.
    fn std_dev(&self, arm: usize) -> (r: i64)
        requires
            self.wf(),
            arm < self.means_spec().len(),
        ensures
            r == self.stds_spec()[arm as int],
    ;

    /// The standard deviations of all the arms.
    fn stds(&self) -> (r: Vec<i64>)
        requires
            self.wf(),
        ensures
            r@ == self.stds_spec(),
    ;
}

} // verus!
