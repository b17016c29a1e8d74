//! Agent that follows the Greedy Algorithm.

use vstd::prelude::*;

use crate::agent::agent::spec_update;
use crate::agent::agent::update;
use crate::agent::agent::Agent;
use crate::util::int_seq_i64;
use crate::util::is_first_max;
use crate::util::ArgBounds;
use crate::util::Stepper;

verus! {

/// Agent that follows the Greedy Algorithm.
///
/// Always chooses the arm with the highest estimated reward; ties break to
/// the lowest index.
pub struct GreedyAgent<S: Stepper> {
    /// The current estimates of the Bandit arm values.
    pub q_star: Vec<i64>,
    /// The Agent's rule for step size updates.
    pub stepper: S,
}

impl<S: Stepper> GreedyAgent<S> {
    /// Initializes a new Greedy agent.
    pub fn new(q_init: Vec<i64>, stepper: S) -> (r: GreedyAgent<S>)
        requires
            stepper.wf(),
            forall|a: int| 0 <= a < q_init@.len() ==> stepper.valid_arm(a),
        ensures
            r.wf(),
            r.q_star@ == q_init@,
            r.stepper == stepper,
    {
        GreedyAgent { q_star: q_init, stepper }
    }
}

impl<S: Stepper> Agent for GreedyAgent<S> {
    open spec fn wf(&self) -> bool {
        &&& self.stepper.wf()
        &&& forall|a: int| 0 <= a < self.q_star@.len() ==> self.stepper.valid_arm(a)
    }

    open spec fn estimates(&self) -> Seq<i64> {
        self.q_star@
    }

    open spec fn action_ok(&self, r: int) -> bool {
        is_first_max(int_seq_i64(self.q_star@), r)
    }

    open spec fn step_rel(&self, post: Self, arm: int, reward: i64) -> bool {
        &&& post.q_star@ == self.q_star@.update(
            arm,
            spec_update(self.q_star@[arm] as int, self.stepper.step_at(arm), reward as int) as i64,
        )
        &&& self.stepper.step_rel(post.stepper, arm)
    }

    /// The action chosen by the Agent: the first arm with the highest
    /// estimated return.
    fn action(&self) -> (r: usize) {
        self.q_star.arg_max()
    }

    /// The number of arms in the Bandit the Agent is playing.
    fn arms(&self) -> (r: usize) {
        self.q_star.len()
    }

    /// The Agent's current estimate of the value of a Bandit's arm.
    fn current_estimate(&self, arm: usize) -> (r: i64) {
        self.q_star[arm]
    }

    /// Reset the Agent's history and give it a new initial guess of the
    /// Bandit's arm values.
    fn reset(&mut self, q_init: Vec<i64>)
        ensures
            old(self).stepper.reset_rel(final(self).stepper),
    {
        self.q_star = q_init;
        self.stepper.reset();
    }

    /// Update the Agent's estimate of a Bandit arm based on a given reward.
    fn step(&mut self, arm: usize, reward: i64) {
        let s: i64 = self.stepper.step(arm);
        let q: i64 = self.q_star[arm];
        let nq: i64 = update(q, s, reward);
        self.q_star.set(arm, nq);
    }
}

} // verus!
