//! Agent that follows the Epsilon-Greedy Algorithm.

use vstd::prelude::*;

use crate::agent::agent::spec_update;
use crate::agent::agent::update;
use crate::agent::agent::Agent;
use crate::fixed::SCALE;
use crate::random::random_i64;
use crate::random::random_index;
use crate::util::int_seq_i64;
use crate::util::is_first_max;
use crate::util::lemma_first_max_unique;
use crate::util::ArgBounds;
use crate::util::Stepper;

verus! {

/// Agent that follows the Epsilon-Greedy Algorithm.
///
/// A fixed (usually small) fraction of the time it picks a random arm; the
/// rest of the time it picks the arm with the highest estimated reward.
pub struct EpsilonGreedyAgent<S: Stepper> {
    /// The current estimates of the Bandit arm values.
    pub q_star: Vec<i64>,
    /// The Agent's rule for step size updates.
    pub stepper: S,
    /// The fixed-point fraction of times a random arm is chosen.
    pub epsilon: i64,
}

impl<S: Stepper> EpsilonGreedyAgent<S> {
    /// Initializes a new Epsilon-Greedy agent.
    ///
    /// Construction fails exactly when `epsilon` lies outside the open
    /// interval `(0, 1)` or no arm is given.
    pub fn new(q_init: Vec<i64>, stepper: S, epsilon: i64) -> (r: Option<EpsilonGreedyAgent<S>>)
        requires
            stepper.wf(),
            forall|a: int| 0 <= a < q_init@.len() ==> stepper.valid_arm(a),
        ensures
            r is Some <==> 0 < epsilon < SCALE && q_init@.len() > 0,
            r matches Some(a) ==> a.wf() && a.q_star@ == q_init@ && a.epsilon == epsilon
                && a.stepper == stepper,
    {
        if epsilon <= 0 || epsilon >= SCALE || q_init.len() == 0 {
            None
        } else {
            Some(EpsilonGreedyAgent { q_star: q_init, stepper, epsilon })
        }
    }

    /// The action the Agent takes once the random draws are fixed: the
    /// randomly picked arm if the unit draw falls below epsilon, the greedy
    /// arm otherwise.
    pub fn action_given(&self, draw: i64, pick: usize) -> (r: usize)
        requires
            self.wf(),
            pick < self.q_star@.len(),
        ensures
            draw < self.epsilon ==> r == pick,
            draw >= self.epsilon ==> is_first_max(int_seq_i64(self.q_star@), r as int),
    {
        if draw < self.epsilon {
            pick
        } else {
            self.q_star.arg_max()
        }
    }
}

impl<S: Stepper> Agent for EpsilonGreedyAgent<S> {
    open spec fn wf(&self) -> bool {
        &&& self.stepper.wf()
        &&& forall|a: int| 0 <= a < self.q_star@.len() ==> self.stepper.valid_arm(a)
        &&& 0 < self.epsilon < SCALE
        &&& self.q_star@.len() > 0
    }

    open spec fn estimates(&self) -> Seq<i64> {
        self.q_star@
    }

    open spec fn action_ok(&self, r: int) -> bool {
        0 <= r < self.q_star@.len()
    }

    open spec fn step_rel(&self, post: Self, arm: int, reward: i64) -> bool {
        &&& post.q_star@ == self.q_star@.update(
            arm,
            spec_update(self.q_star@[arm] as int, self.stepper.step_at(arm), reward as int) as i64,
        )
        &&& self.stepper.step_rel(post.stepper, arm)
        &&& post.epsilon == self.epsilon
    }

    /// The action chosen by the Agent: a uniformly random arm with
    /// probability epsilon, and the greedy arm otherwise.
    fn action(&self) -> (r: usize) {
        let draw: i64 = random_i64(0, SCALE);
        let pick: usize = random_index(self.q_star.len());
        self.action_given(draw, pick)
    }

    /// The number of arms in the Bandit the Agent is playing.
    fn arms(&self) -> (r: usize) {
        self.q_star.len()
    }

    /// The Agent's current estimate of the value of a Bandit's arm.
    fn current_estimate(&self, arm: usize) -> (r: i64) {
        self.q_star[arm]
    }

    /// Reset the Agent's history and give it a new initial guess of the
    /// Bandit's arm values.
    fn reset(&mut self, q_init: Vec<i64>)
        ensures
            old(self).stepper.reset_rel(final(self).stepper),
            final(self).epsilon == old(self).epsilon,
    {
        self.q_star = q_init;
        self.stepper.reset();
    }

    /// Update the Agent's estimate of a Bandit arm based on a given reward.
    fn step(&mut self, arm: usize, reward: i64) {
        let s: i64 = self.stepper.step(arm);
        let q: i64 = self.q_star[arm];
        let nq: i64 = update(q, s, reward);
        self.q_star.set(arm, nq);
    }
}

/// Suppressing the exploration branch makes Epsilon-Greedy act greedily.
///
/// Law: whenever the unit draw does not fall below epsilon, the arm an
/// Epsilon-Greedy agent picks equals the arm a Greedy agent with the same
/// estimates picks: both are the unique first index of the maximum estimate.
/// In the limit of epsilon approaching zero the draw never falls below
/// epsilon, so the two policies agree on every pull.
pub proof fn lemma_epsilon_greedy_agrees_with_greedy(
    q: Seq<int>,
    epsilon: int,
    draw: int,
    eps_arm: int,
    greedy_arm: int,
)
    requires
        draw >= epsilon,
        draw >= epsilon ==> is_first_max(q, eps_arm),
        is_first_max(q, greedy_arm),
    ensures
        eps_arm == greedy_arm,
{
    lemma_first_max_unique(q, eps_arm, greedy_arm);
}

} // verus!
