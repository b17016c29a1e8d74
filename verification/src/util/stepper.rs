//! Step-size (learning-rate) policies used when blending a new reward into an
//! estimate.

use vstd::prelude::*;

use crate::fixed::SCALE;

verus! {

/// One more than `c`, saturating at the `u32` range.
pub open spec fn bump(c: int) -> int {
    if c < u32::MAX {
        c + 1
    } else {
        c
    }
}

/// Trait containing all methods required by all steppers.
///
/// The step size returned by `step` is a fixed-point weight; each
/// implementation pins its value and its state transition exactly through the
/// spec functions below.
pub trait Stepper: Sized {
    /// The stepper's state is well formed.
    spec fn wf(&self) -> bool;

    /// The stepper tracks this arm index.
    spec fn valid_arm(&self, arm: int) -> bool;

    /// The fixed-point step size that `step` returns in the current state.
    spec fn step_at(&self, arm: int) -> int;

    /// The state transition performed by `step`.
    spec fn step_rel(&self, post: Self, arm: int) -> bool;

    /// The state transition performed by `reset`.
    spec fn reset_rel(&self, post: Self) -> bool;

    /// Resets the stepper to its initial value.
    fn reset(&mut self)
        requires
            old(self).wf(),
        ensures
            final(self).wf(),
            old(self).reset_rel(*final(self)),
            forall|a: int| final(self).valid_arm(a) <==> old(self).valid_arm(a),
    ;

    /// Returns the current step size and advances the state for that arm.
    fn step(&mut self, arm: usize) -> (r: i64)
        requires
            old(self).wf(),
            old(self).valid_arm(arm as int),
        ensures
            final(self).wf(),
            r == old(self).step_at(arm as int),
            r >= 0,
            old(self).step_rel(*final(self), arm as int),
            forall|a: int| final(self).valid_arm(a) <==> old(self).valid_arm(a),
    ;
}

/// Stepper using a constant step size.
pub struct ConstantStepper {
    /// Step multiple for the update rule, as a fixed-point value.
    pub step_size: i64,
}

impl ConstantStepper {
    /// Initializes the stepper with a positive fixed-point step size.
    pub fn new(step_size: i64) -> (r: ConstantStepper)
        requires
            step_size > 0,
        ensures
            r.wf(),
            r.step_size == step_size,
    {
        ConstantStepper { step_size }
    }

    /// Updates the step size.
    pub fn update(&mut self, step_size: i64)
        requires
            step_size > 0,
        ensures
            final(self).wf(),
            final(self).step_size == step_size,
    {
        self.step_size = step_size;
    }
}

impl Stepper for ConstantStepper {
    open spec fn wf(&self) -> bool {
        self.step_size >= 1
    }

    open spec fn valid_arm(&self, arm: int) -> bool {
        true
    }

    open spec fn step_at(&self, arm: int) -> int {
        self.step_size as int
    }

    open spec fn step_rel(&self, post: Self, arm: int) -> bool {
        post == *self
    }

    open spec fn reset_rel(&self, post: Self) -> bool {
        post == *self
    }

    /// Resets the stepper. Has no effect on ConstantStepper.
    fn reset(&mut self) {
    }

    /// Returns the current step size. Used to apply the update rule.
    fn step(&mut self, arm: usize) -> (r: i64) {
        self.step_size
    }
}

/// Stepper with a harmonically decreasing step size.
///
/// Stores one visit counter per arm and returns the fixed-point inverse of
/// the counter when called, then increments that counter.
pub struct HarmonicStepper {
    /// Initial value of each counter.
    pub warm_up: u32,
    /// Per-arm counters whose inverses are the step sizes.
    pub step_size: Vec<u32>,
}

impl HarmonicStepper {
    /// Initializes the stepper with the same counter for each bandit arm.
    pub fn new(step_size: u32, length: usize) -> (r: HarmonicStepper)
        requires
            step_size > 0,
            length > 0,
        ensures
            r.wf(),
            r.warm_up == step_size,
            r.step_size@.len() == length,
            forall|i: int| 0 <= i < length ==> r.step_size@[i] == step_size,
    {
        let mut counters: Vec<u32> = Vec::new();
        let mut k: usize = 0;
        while k < length
            invariant
                k <= length,
                counters@.len() == k,
                forall|i: int| 0 <= i < k ==> counters@[i] == step_size,
            decreases length - k,
        {
            counters.push(step_size);
            k = k + 1;
        }
        HarmonicStepper { warm_up: step_size, step_size: counters }
    }

    /// Returns the number of arms the stepper tracks.
    pub fn arms(&self) -> (r: usize)
        ensures
            r == self.step_size@.len(),
    {
        self.step_size.len()
    }
}

impl Stepper for HarmonicStepper {
    open spec fn wf(&self) -> bool {
        &&& self.warm_up >= 1
        &&& forall|i: int| 0 <= i < self.step_size@.len() ==> self.step_size@[i] >= 1
    }

    open spec fn valid_arm(&self, arm: int) -> bool {
        0 <= arm < self.step_size@.len()
    }

    open spec fn step_at(&self, arm: int) -> int {
        SCALE as int / (self.step_size@[arm] as int)
    }

    open spec fn step_rel(&self, post: Self, arm: int) -> bool {
        &&& post.warm_up == self.warm_up
        &&& post.step_size@.len() == self.step_size@.len()
        &&& post.step_size@[arm] == bump(self.step_size@[arm] as int)
        &&& forall|i: int|
            0 <= i < self.step_size@.len() && i != arm ==> post.step_size@[i]
                == self.step_size@[i]
    }

    open spec fn reset_rel(&self, post: Self) -> bool {
        &&& post.warm_up == self.warm_up
        &&& post.step_size@.len() == self.step_size@.len()
        &&& forall|i: int| 0 <= i < post.step_size@.len() ==> post.step_size@[i] == self.warm_up
    }

    /// Resets all counters to the initial value.
    fn reset(&mut self) {
        let warm: u32 = self.warm_up;
        let length: usize = self.step_size.len();
        let mut counters: Vec<u32> = Vec::new();
        let mut k: usize = 0;
        while k < length
            invariant
                k <= length,
                counters@.len() == k,
                warm >= 1,
                forall|i: int| 0 <= i < k ==> counters@[i] == warm,
            decreases length - k,
        {
            counters.push(warm);
            k = k + 1;
        }
        self.step_size = counters;
    }

    /// Returns the current step size for the given arm, then increments the
    /// counter for that arm.
    fn step(&mut self, arm: usize) -> (r: i64) {
        let c: u32 = self.step_size[arm];
        let s: i64 = SCALE / (c as i64);
        if c < u32::MAX {
            self.step_size.set(arm, c + 1);
        }
        s
    }
}

/// Successive harmonic steps on one arm yield the reciprocals of the
/// counting numbers.
///
/// Law: along any chain of states produced by stepping the same arm of a
/// harmonic stepper built with warm-up one, the arm's counter after `k`
/// steps is `k + 1`, so the step size returned by the next step is the
/// fixed-point value `1 / (k + 1)`: the sequence `1, 1/2, 1/3, ...`.
pub proof fn lemma_harmonic_yields_reciprocals(states: Seq<HarmonicStepper>, arm: int, k: int)
    requires
        states.len() >= 1,
        states[0].valid_arm(arm),
        states[0].warm_up == 1,
        states[0].step_size@[arm] == 1,
        forall|t: int|
            0 <= t < states.len() - 1 ==> (#[trigger] states[t]).step_rel(states[t + 1], arm),
        0 <= k < states.len(),
        k < u32::MAX,
    ensures
        states[k].step_size@[arm] == k + 1,
        states[k].step_at(arm) == SCALE as int / (k + 1),
    decreases k,
{
    if k > 0 {
        lemma_harmonic_yields_reciprocals(states, arm, k - 1);
        assert(states[k - 1].step_rel(states[k], arm));
    }
}

/// A reset restores the harmonic sequence to start at one again.
///
/// Law: after resetting a harmonic stepper built with warm-up one, every
/// arm's counter is one again, so the next step on any arm returns the
/// fixed-point value one and the reciprocal sequence restarts.
pub proof fn lemma_harmonic_reset_restarts(pre: HarmonicStepper, post: HarmonicStepper, arm: int)
    requires
        pre.valid_arm(arm),
        pre.warm_up == 1,
        pre.reset_rel(post),
    ensures
        post.step_size@[arm] == 1,
        post.step_at(arm) == SCALE,
{
    assert(SCALE as int / 1int == SCALE) by {
        vstd::arithmetic::div_mod::lemma_div_by_self(1);
        vstd::arithmetic::div_mod::lemma_fundamental_div_mod(SCALE as int, 1);
    }
}

} // verus!
