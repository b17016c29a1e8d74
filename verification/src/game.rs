//! Structure to make an Agent interact with a Bandit.

use vstd::prelude::*;

use crate::agent::Agent;
use crate::bandit::Bandit;
use crate::fixed::VALUE_MAX;
use crate::util::int_seq_i64;
use crate::util::is_first_max;
use crate::util::lemma_first_max_unique;
use crate::util::Counter;
use crate::util::RecordCounter;

verus! {

/// Structure to make the Agent interact with the Bandit.
///
/// Each pull asks the Agent for an action, scores it against the Bandit's
/// best arm, samples a reward, records both outcomes, and only then lets the
/// Agent learn from the sample.
pub struct Game<A: Agent, B: Bandit> {
    /// Agent learning about the bandit.
    pub agent: A,
    /// Bandit played by the agent.
    pub bandit: B,
    /// Records wins and losses from each arm pull. Win means pulling the
    /// best arm.
    pub wins: RecordCounter<u32>,
    /// Records rewards from each arm pull.
    pub rewards: RecordCounter<i64>,
}

impl<A: Agent, B: Bandit> Game<A, B> {
    /// The Game couples a well-formed Agent and Bandit of matching arm
    /// count, with consistent counters.
    pub open spec fn wf(&self) -> bool {
        &&& self.agent.wf()
        &&& self.bandit.wf()
        &&& self.agent.estimates().len() == self.bandit.means_spec().len()
        &&& self.agent.estimates().len() > 0
        &&& self.wins.wf()
        &&& self.rewards.wf()
    }

    /// One pull relates the pre- and post-states of a Game for some chosen
    /// arm `a` and drawn reward `x`: the arm is one the Agent's policy may
    /// choose, the new wins entry is one exactly when that arm is the first
    /// arm of maximum mean, the reward obeys the arm's distribution shape
    /// and is recorded as drawn, and the Agent learns from exactly this arm
    /// and reward, after both outcomes are recorded; no other arm's estimate
    /// changes and the Bandit is untouched.
    pub open spec fn pull_outcome(self, post: Game<A, B>, a: int, x: i64) -> bool {
        &&& 0 <= a < self.agent.estimates().len()
        &&& self.agent.action_ok(a)
        &&& post.wins.record@ == self.wins.record@.push(
            if is_first_max(int_seq_i64(self.bandit.means_spec()), a) {
                1u32
            } else {
                0u32
            },
        )
        &&& -VALUE_MAX <= x <= VALUE_MAX
        &&& self.bandit.reward_ok(a, x)
        &&& post.rewards.record@ == self.rewards.record@.push(x)
        &&& self.agent.step_rel(post.agent, a, x)
        &&& post.agent.estimates().len() == self.agent.estimates().len()
        &&& forall|i: int|
            0 <= i < self.agent.estimates().len() && i != a ==> post.agent.estimates()[i]
                == self.agent.estimates()[i]
        &&& post.bandit == self.bandit
    }

    /// Initializes a Game with an Agent, a Bandit, and new counters.
    ///
    /// Construction fails exactly when the Agent and the Bandit disagree on
    /// the number of arms.
    pub fn new(agent: A, bandit: B) -> (r: Option<Game<A, B>>)
        requires
            agent.wf(),
            bandit.wf(),
            bandit.means_spec().len() > 0,
        ensures
            r is Some <==> agent.estimates().len() == bandit.means_spec().len(),
            r matches Some(g) ==> g.wf() && g.agent == agent && g.bandit == bandit
                && g.wins.record@ == Seq::<u32>::empty() && g.rewards.record@
                == Seq::<i64>::empty(),
    {
        if agent.arms() == bandit.arms() {
            Some(Game { agent, bandit, wins: RecordCounter::new(), rewards: RecordCounter::new() })
        } else {
            None
        }
    }

    /// Returns the number of bandit arms.
    pub fn arms(&self) -> (r: usize)
        requires
            self.wf(),
        ensures
            r == self.bandit.means_spec().len(),
    {
        self.bandit.arms()
    }

    /// Agent chooses an arm to pull; the Game records whether the choice was
    /// the best arm and what reward it drew, then lets the Agent update.
    fn pull_arm(&mut self)
        requires
            old(self).wf(),
            old(self).wins.count < u32::MAX,
            old(self).rewards.count < u32::MAX,
        ensures
            final(self).wf(),
            final(self).bandit == old(self).bandit,
            final(self).agent.estimates().len() == old(self).agent.estimates().len(),
            exists|a: int, x: i64| old(self).pull_outcome(*final(self), a, x),
    {
        let current_action: usize = self.agent.action();
        let best: usize = self.bandit.best_arm();
        let w: u32 = if current_action == best {
            1
        } else {
            0
        };
        self.wins.update(w);
        let reward: i64 = self.bandit.reward(current_action);
        self.rewards.update(reward);
        self.agent.step(current_action, reward);
        proof {
            let ms = int_seq_i64(old(self).bandit.means_spec());
            if current_action != best && is_first_max(ms, current_action as int) {
                lemma_first_max_unique(ms, current_action as int, best as int);
            }
            assert(old(self).pull_outcome(*self, current_action as int, reward));
        }
    }

    /// Resets the Game: resets the Agent with a new initial guess and
    /// empties both counters. The Bandit is left untouched.
    pub fn reset(&mut self, q_init: Vec<i64>)
        requires
            old(self).wf(),
            q_init@.len() == old(self).agent.estimates().len(),
        ensures
            final(self).wf(),
            final(self).bandit == old(self).bandit,
            final(self).agent.estimates() == q_init@,
            final(self).wins.record@ == Seq::<u32>::empty(),
            final(self).rewards.record@ == Seq::<i64>::empty(),
            reset_outcome(*old(self), *final(self), q_init@),
    {
        self.agent.reset(q_init);
        self.rewards.reset();
        self.wins.reset();
    }

    /// Returns the vector of recorded rewards, one entry per pull since the
    /// last reset, in pull order.
    pub fn rewards(&self) -> (r: &Vec<i64>)
        ensures
            r@ == self.rewards.record@,
    {
        self.rewards.record()
    }

    /// Run the game for the given number of steps, one pull per step.
    ///
    /// The final state follows from the initial one by a chain of exactly
    /// `steps` pulls, so exactly `steps` new entries are appended to both
    /// records; each new wins entry flags whether the pulled arm was the
    /// first arm of maximum mean, and each new rewards entry obeys the
    /// pulled arm's distribution shape.
    pub fn run(&mut self, steps: u32)
        requires
            old(self).wf(),
            old(self).wins.count + steps <= u32::MAX,
            old(self).rewards.count + steps <= u32::MAX,
        ensures
            final(self).wf(),
            final(self).bandit == old(self).bandit,
            final(self).agent.estimates().len() == old(self).agent.estimates().len(),
            final(self).wins.record@.len() == old(self).wins.record@.len() + steps,
            final(self).rewards.record@.len() == old(self).rewards.record@.len() + steps,
            final(self).wins.record@.subrange(0, old(self).wins.record@.len() as int) == old(self).wins.record@,
            final(self).rewards.record@.subrange(0, old(self).rewards.record@.len() as int) == old(self).rewards.record@,
            forall|t: int|
                old(self).wins.record@.len() <= t < final(self).wins.record@.len() ==> final(self).wins.record@[t] == 0 || final(self).wins.record@[t] == 1,
            forall|t: int|
                old(self).rewards.record@.len() <= t < final(self).rewards.record@.len() ==> -VALUE_MAX
                    <= #[trigger] final(self).rewards.record@[t] <= VALUE_MAX,
            forall|t: int|
                old(self).rewards.record@.len() <= t < final(self).rewards.record@.len()
                    ==> reward_entry_ok(
                        old(self).agent.estimates().len() as int,
                        old(self).bandit,
                        #[trigger] final(self).rewards.record@[t],
                    ),
            runs_to(*old(self), *final(self), steps as int),
    {
        let ghost mut chain: Seq<Game<A, B>> = seq![*old(self)];
        let mut t: u32 = 0;
        while t < steps
            invariant
                t <= steps,
                self.wf(),
                self.bandit == old(self).bandit,
                self.agent.estimates().len() == old(self).agent.estimates().len(),
                self.wins.record@.len() == old(self).wins.record@.len() + t,
                self.rewards.record@.len() == old(self).rewards.record@.len() + t,
                old(self).wins.count + steps <= u32::MAX,
                old(self).rewards.count + steps <= u32::MAX,
                old(self).wins.count == old(self).wins.record@.len(),
                old(self).rewards.count == old(self).rewards.record@.len(),
                self.wins.record@.subrange(0, old(self).wins.record@.len() as int) == old(self).wins.record@,
                self.rewards.record@.subrange(0, old(self).rewards.record@.len() as int) == old(self).rewards.record@,
                forall|tt: int|
                    old(self).wins.record@.len() <= tt < self.wins.record@.len() ==> self.wins.record@[tt]
                        == 0 || self.wins.record@[tt] == 1,
                forall|tt: int|
                    old(self).rewards.record@.len() <= tt < self.rewards.record@.len() ==> -VALUE_MAX
                        <= #[trigger] self.rewards.record@[tt] <= VALUE_MAX,
                forall|tt: int|
                    old(self).rewards.record@.len() <= tt < self.rewards.record@.len()
                        ==> reward_entry_ok(
                            old(self).agent.estimates().len() as int,
                            old(self).bandit,
                            #[trigger] self.rewards.record@[tt],
                        ),
                chain.len() == t + 1,
                chain[0] == *old(self),
                chain[t as int] == *self,
                forall|k: int| 0 <= k < t ==> #[trigger] pull_step(chain, k),
            decreases steps - t,
        {
            let ghost pre_state = *self;
            let ghost pre_chain = chain;
            let ghost pre_wins = self.wins.record@;
            let ghost pre_rewards = self.rewards.record@;
            self.pull_arm();
            proof {
                chain = chain.push(*self);
                let (a0, x0) = choose|a: int, x: i64| #[trigger] pre_state.pull_outcome(*self, a, x);
                assert(pre_state.pull_outcome(*self, a0, x0));
                assert forall|k: int| 0 <= k < t + 1 implies #[trigger] pull_step(chain, k) by {
                    if k < t {
                        assert(pull_step(pre_chain, k));
                        let (a, x) = choose|a: int, x: i64|
                            #[trigger] pre_chain[k].pull_outcome(pre_chain[k + 1], a, x);
                        assert(chain[k].pull_outcome(chain[k + 1], a, x));
                    } else {
                        assert(chain[k].pull_outcome(chain[k + 1], a0, x0));
                    }
                }
                assert(pre_wins.subrange(0, old(self).wins.record@.len() as int) == old(self).wins.record@);
                assert(self.wins.record@.subrange(0, old(self).wins.record@.len() as int) =~= old(self).wins.record@);
                assert(self.rewards.record@.subrange(0, old(self).rewards.record@.len() as int)
                    =~= old(self).rewards.record@);
                assert forall|tt: int|
                    old(self).rewards.record@.len() <= tt < self.rewards.record@.len() implies reward_entry_ok(
                    old(self).agent.estimates().len() as int,
                    old(self).bandit,
                    #[trigger] self.rewards.record@[tt],
                ) by {
                    if tt == self.rewards.record@.len() - 1 {
                        assert(self.rewards.record@[tt] == x0);
                        assert(0 <= a0 < old(self).agent.estimates().len()
                            && old(self).bandit.reward_ok(a0, x0));
                    } else {
                        assert(self.rewards.record@[tt] == pre_rewards[tt]);
                    }
                }
            }
            t = t + 1;
        }
        proof {
            assert(pull_chain(*old(self), *self, chain, steps as int));
        }
    }

    /// Returns the vector of recorded wins, one entry per pull since the
    /// last reset, in pull order: an entry is one exactly when that pull
    /// chose the first arm of maximum mean, as `run`'s contract states.
    pub fn wins(&self) -> (r: &Vec<u32>)
        ensures
            r@ == self.wins.record@,
    {
        self.wins.record()
    }
}

/// Some arm below the given count could have drawn this reward value from
/// the bandit: the entry obeys that arm's distribution shape.
pub open spec fn reward_entry_ok<B: Bandit>(arms: int, b: B, x: i64) -> bool {
    exists|a: int| 0 <= a < arms && #[trigger] b.reward_ok(a, x)
}

/// Step `t` of a chain of game states is one pull.
pub open spec fn pull_step<A: Agent, B: Bandit>(states: Seq<Game<A, B>>, t: int) -> bool {
    exists|a: int, x: i64| #[trigger] states[t].pull_outcome(states[t + 1], a, x)
}

/// `states` is a chain of `steps` consecutive pulls leading from `pre` to
/// `post`.
pub open spec fn pull_chain<A: Agent, B: Bandit>(
    pre: Game<A, B>,
    post: Game<A, B>,
    states: Seq<Game<A, B>>,
    steps: int,
) -> bool {
    &&& states.len() == steps + 1
    &&& states[0] == pre
    &&& states[steps] == post
    &&& forall|t: int| 0 <= t < steps ==> #[trigger] pull_step(states, t)
}

/// `post` follows from `pre` by a chain of exactly `steps` pulls.
pub open spec fn runs_to<A: Agent, B: Bandit>(pre: Game<A, B>, post: Game<A, B>, steps: int) -> bool {
    exists|states: Seq<Game<A, B>>| pull_chain(pre, post, states, steps)
}

/// `post` is `pre` with both counters emptied and the Agent's estimates
/// replaced by `q`; the Bandit is untouched.
pub open spec fn reset_outcome<A: Agent, B: Bandit>(
    pre: Game<A, B>,
    post: Game<A, B>,
    q: Seq<i64>,
) -> bool {
    &&& post.bandit == pre.bandit
    &&& post.agent.estimates() == q
    &&& q.len() == pre.agent.estimates().len()
    &&& post.wins.record@ == Seq::<u32>::empty()
    &&& post.rewards.record@ == Seq::<i64>::empty()
}

} // verus!
