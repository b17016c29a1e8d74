//! Agent that follows the Optimistic Algorithm.

use vstd::prelude::*;

use crate::agent::agent::spec_update;
use crate::agent::agent::update;
use crate::agent::agent::Agent;
use crate::fixed::add_fp;
use crate::fixed::clamp_value;
use crate::fixed::lemma_ln_one;
use crate::fixed::lemma_tdiv_magnitude;
use crate::fixed::ln_fp;
use crate::fixed::mul_fp;
use crate::fixed::spec_isqrt;
use crate::fixed::spec_ln_fp;
use crate::fixed::spec_mul_fp;
use crate::fixed::spec_sqrt_fp;
use crate::fixed::sqrt_fp;
use crate::fixed::tdiv;
use crate::fixed::tdiv128;
use crate::fixed::SCALE;
use crate::fixed::VALUE_MAX;
use crate::util::bump;
use crate::util::int_seq_i64;
use crate::util::is_first_max;
use crate::util::ArgBounds;
use crate::util::Stepper;

verus! {

/// The confidence-adjusted value of one arm: the estimate plus the
/// exploration bonus `c * sqrt(ln(total) / visits)`, computed in fixed point
/// with each step saturating at the value range.
pub open spec fn spec_ucb(q: int, c: int, total: int, visits: int) -> int
    recommends
        total >= 1,
        visits >= 1,
{
    clamp_value(
        q + clamp_value(
            spec_mul_fp(c, spec_sqrt_fp(tdiv(spec_ln_fp(total * SCALE), visits))),
        ),
    )
}

/// Agent that follows the Optimistic Algorithm.
///
/// Always chooses the arm with the highest confidence bound. The bonus is
/// computed from the visit counts as they stand before the current pull.
pub struct OptimisticAgent<S: Stepper> {
    /// The current estimates of the Bandit arm values.
    pub q_star: Vec<i64>,
    /// Confidence constant, a positive fixed-point value.
    pub c: i64,
    /// Total number of rounds the Agent has played, starting from one.
    pub total: u32,
    /// Number of times the Agent has played each arm, starting from one.
    pub arm_total: Vec<u32>,
    /// The Agent's rule for step size updates.
    pub stepper: S,
}

impl<S: Stepper> OptimisticAgent<S> {
    /// Initializes a new Optimistic agent.
    ///
    /// Construction fails exactly when the confidence constant is not
    /// positive.
    pub fn new(q_init: Vec<i64>, c: i64, stepper: S) -> (r: Option<OptimisticAgent<S>>)
        requires
            stepper.wf(),
            forall|a: int| 0 <= a < q_init@.len() ==> stepper.valid_arm(a),
        ensures
            r is Some <==> c > 0,
            r matches Some(a) ==> a.wf() && a.q_star@ == q_init@ && a.c == c && a.total == 1 && (
            forall|i: int| 0 <= i < q_init@.len() ==> #[trigger] a.arm_total@[i] == 1)
                && a.arm_total@.len() == q_init@.len() && a.stepper == stepper,
    {
        if c <= 0 {
            return None;
        }
        let n: usize = q_init.len();
        let mut visits: Vec<u32> = Vec::new();
        let mut k: usize = 0;
        while k < n
            invariant
                k <= n,
                visits@.len() == k,
                forall|i: int| 0 <= i < k ==> #[trigger] visits@[i] == 1,
            decreases n - k,
        {
            visits.push(1);
            k = k + 1;
        }
        Some(OptimisticAgent { arm_total: visits, q_star: q_init, c, total: 1, stepper })
    }

    /// The confidence-adjusted values of all arms.
    pub open spec fn ucb_spec(&self) -> Seq<int> {
        Seq::new(
            self.q_star@.len(),
            |i: int|
                spec_ucb(
                    self.q_star@[i] as int,
                    self.c as int,
                    self.total as int,
                    self.arm_total@[i] as int,
                ),
        )
    }

    /// Returns the current number of times each arm has been pulled.
    pub fn arm_total(&self) -> (r: &Vec<u32>)
        ensures
            r@ == self.arm_total@,
    {
        &self.arm_total
    }
}

impl<S: Stepper> Agent for OptimisticAgent<S> {
    open spec fn wf(&self) -> bool {
        &&& self.stepper.wf()
        &&& forall|a: int| 0 <= a < self.q_star@.len() ==> self.stepper.valid_arm(a)
        &&& self.c >= 1
        &&& self.total >= 1
        &&& self.arm_total@.len() == self.q_star@.len()
        &&& forall|i: int| 0 <= i < self.arm_total@.len() ==> #[trigger] self.arm_total@[i] >= 1
    }

    open spec fn estimates(&self) -> Seq<i64> {
        self.q_star@
    }

    open spec fn action_ok(&self, r: int) -> bool {
        is_first_max(self.ucb_spec(), r)
    }

    open spec fn step_rel(&self, post: Self, arm: int, reward: i64) -> bool {
        &&& post.q_star@ == self.q_star@.update(
            arm,
            spec_update(self.q_star@[arm] as int, self.stepper.step_at(arm), reward as int) as i64,
        )
        &&& self.stepper.step_rel(post.stepper, arm)
        &&& post.c == self.c
        &&& post.total == bump(self.total as int)
        &&& post.arm_total@.len() == self.arm_total@.len()
        &&& post.arm_total@[arm] == bump(self.arm_total@[arm] as int)
        &&& forall|i: int|
            0 <= i < self.arm_total@.len() && i != arm ==> post.arm_total@[i]
                == self.arm_total@[i]
    }

    /// The action chosen by the Agent: the first arm with the highest
    /// confidence bound.
    fn action(&self) -> (r: usize) {
        let total_fp: i64 = (self.total as i64) * SCALE;
        let ln_t: i64 = ln_fp(total_fp);
        let mut ucb: Vec<i64> = Vec::new();
        let mut i: usize = 0;
        while i < self.q_star.len()
            invariant
                self.wf(),
                i <= self.q_star@.len(),
                ln_t == spec_ln_fp(self.total as int * SCALE),
                0 <= ln_t <= VALUE_MAX,
                ucb@.len() == i,
                forall|j: int| 0 <= j < i ==> #[trigger] ucb@[j] == self.ucb_spec()[j],
            decreases self.q_star@.len() - i,
        {
            let visits: u32 = self.arm_total[i];
            proof {
                lemma_tdiv_magnitude(ln_t as int, visits as int);
            }
            let ratio: i64 = tdiv128(ln_t as i128, visits as i128) as i64;
            let bonus: i64 = mul_fp(self.c, sqrt_fp(ratio));
            let u: i64 = add_fp(self.q_star[i], bonus);
            ucb.push(u);
            i = i + 1;
        }
        let r: usize = ucb.arg_max();
        proof {
            assert(int_seq_i64(ucb@) =~= self.ucb_spec());
        }
        r
    }

    /// The number of arms in the Bandit the Agent is playing.
    fn arms(&self) -> (r: usize) {
        self.q_star.len()
    }

    /// The Agent's current estimate of the value of a Bandit's arm.
    fn current_estimate(&self, arm: usize) -> (r: i64) {
        self.q_star[arm]
    }

    /// Reset the Agent's history and give it a new initial guess of the
    /// Bandit's arm values. The visit counts are kept.
    fn reset(&mut self, q_init: Vec<i64>)
        ensures
            old(self).stepper.reset_rel(final(self).stepper),
            final(self).c == old(self).c,
            final(self).total == old(self).total,
            final(self).arm_total@ == old(self).arm_total@,
    {
        self.q_star = q_init;
        self.stepper.reset();
    }

    /// Update the Agent's totals and its estimate of a Bandit arm based on a
    /// given reward.
    fn step(&mut self, arm: usize, reward: i64) {
        let s: i64 = self.stepper.step(arm);
        let q: i64 = self.q_star[arm];
        let nq: i64 = update(q, s, reward);
        self.q_star.set(arm, nq);
        let v: u32 = self.arm_total[arm];
        if v < u32::MAX {
            self.arm_total.set(arm, v + 1);
        }
        if self.total < u32::MAX {
            self.total = self.total + 1;
        }
    }
}

/// A fresh optimistic agent with equal estimates chooses the first arm.
///
/// Law: before any pull the total count is one, so the logarithm in the
/// exploration bonus is zero and every arm carries the same bonus; with all
/// estimates equal the confidence-adjusted values are all equal, and the
/// first-occurrence tie-break selects arm zero.
pub proof fn lemma_fresh_optimistic_prefers_first_arm<S: Stepper>(a: OptimisticAgent<S>)
    requires
        a.wf(),
        a.q_star@.len() > 0,
        a.total == 1,
        forall|i: int| 0 <= i < a.arm_total@.len() ==> #[trigger] a.arm_total@[i] == 1,
        forall|i: int| 0 <= i < a.q_star@.len() ==> #[trigger] a.q_star@[i] == a.q_star@[0],
        -VALUE_MAX <= a.q_star@[0] <= VALUE_MAX,
    ensures
        is_first_max(a.ucb_spec(), 0),
{
    lemma_ln_one();
    assert(a.total as int * SCALE == SCALE) by (nonlinear_arith)
        requires
            a.total == 1,
    ;
    assert(tdiv(0, 1) == 0) by {
        vstd::arithmetic::div_mod::lemma_div_of0(1);
    }
    assert(spec_sqrt_fp(0) == 0) by {
        assert(0 * SCALE == 0) by (nonlinear_arith);
        assert(spec_isqrt(0) == 0);
    }
    assert(spec_mul_fp(a.c as int, 0) == 0) by {
        assert(a.c as int * 0 == 0) by (nonlinear_arith);
        vstd::arithmetic::div_mod::lemma_div_of0(SCALE as int);
    }
    assert forall|i: int| 0 <= i < a.q_star@.len() implies a.ucb_spec()[i] == a.q_star@[0] by {
        assert(spec_ucb(a.q_star@[i] as int, a.c as int, 1, 1) == clamp_value(
            a.q_star@[i] as int + 0,
        ));
    }
}

} // verus!
