//! The common Agent interface and the shared estimate update rule.

use vstd::prelude::*;

use crate::fixed::add_fp;
use crate::fixed::clamp_value;
use crate::fixed::mul_fp;
use crate::fixed::spec_mul_fp;
use crate::fixed::sub_fp;

verus! {

/// The canonical incremental estimate update: blend `reward` into the old
/// estimate `q` with fixed-point weight `s`. Each intermediate saturates at
/// the value range, exactly as the executable update does.
pub open spec fn spec_update(q: int, s: int, reward: int) -> int {
    clamp_value(q + clamp_value(spec_mul_fp(s, clamp_value(reward - q))))
}

/// A trait for common members of the Agents.
///
/// An Agent holds one fixed-point value estimate per arm; `step` blends an
/// observed reward into the estimate of the pulled arm and touches no other
/// arm, and `reset` replaces the estimates wholesale.
pub trait Agent: Sized {
    /// The Agent's state is well formed.
    spec fn wf(&self) -> bool;

    /// The Agent's current value estimates, one per arm.
    spec fn estimates(&self) -> Seq<i64>;

    /// What the chosen action may be in the current state: each policy pins
    /// this as far as its randomness allows (exactly for the deterministic
    /// policies, any arm for a uniformly random exploration).
    spec fn action_ok(&self, r: int) -> bool;

    /// The state transition performed by `step` for a given arm and reward:
    /// each policy pins the estimate blend and its bookkeeping exactly.
    spec fn step_rel(&self, post: Self, arm: int, reward: i64) -> bool;

    /// The action chosen by the Agent.
    fn action(&self) -> (r: usize)
        requires
            self.wf(),
            self.estimates().len() > 0,
        ensures
            r < self.estimates().len(),
            self.action_ok(r as int),
    ;

    /// The number of arms in the Bandit the Agent is playing.
    fn arms(&self) -> (r: usize)
        ensures
            r == self.estimates().len(),
    ;

    /// The Agent's current estimate of the value of a Bandit's arm.
    fn current_estimate(&self, arm: usize) -> (r: i64)
        requires
            arm < self.estimates().len(),
        ensures
            r == self.estimates()[arm as int],
    ;

    /// Reset the Agent's history and give it a new initial guess of the
    /// Bandit's arm values.
    fn reset(&mut self, q_init: Vec<i64>)
        requires
            old(self).wf(),
            q_init@.len() == old(self).estimates().len(),
        ensures
            final(self).wf(),
            final(self).estimates() == q_init@,
    ;

    /// Update the Agent's estimate of a Bandit arm based on a given reward.
    fn step(&mut self, arm: usize, reward: i64)
        requires
            old(self).wf(),
            arm < old(self).estimates().len(),
        ensures
            final(self).wf(),
            final(self).estimates().len() == old(self).estimates().len(),
            forall|i: int|
                0 <= i < old(self).estimates().len() && i != arm ==> final(self).estimates()[i]
                    == old(self).estimates()[i],
            old(self).step_rel(*final(self), arm as int, reward),
    ;
}

/// Calculate the Agent's new estimate of a Bandit arm from the old estimate,
/// the step size, and the observed reward.
pub(crate) fn update(q: i64, s: i64, reward: i64) -> (r: i64)
    ensures
        r == spec_update(q as int, s as int, reward as int),
{
    add_fp(q, mul_fp(s, sub_fp(reward, q)))
}

} // verus!
