//! A single greedy grid point over a Bernoulli bandit.

use vstd::prelude::*;

use crate::agent::Agent;
use crate::agent::GreedyAgent;
use crate::bandit::Bandit;
use crate::bandit::BinomialBandit;
use crate::fixed::add_fp;
use crate::fixed::sub_fp;
use crate::fixed::tdiv;
use crate::fixed::SCALE;
use crate::fixed::VALUE_MAX;
use crate::game::reward_entry_ok;
use crate::game::Game;
use crate::run::estimates_in;
use crate::run::fresh_harmonic;
use crate::run::multiple_runs;
use crate::run::multiple_runs_outcome;
use crate::run::multiple_runs_witness;
use crate::run::random_init;
use crate::run::rewards_col_sum;
use crate::run::single_trial_bandit;
use crate::run::window_hi;
use crate::run::window_lo;
use crate::run::lemma_rewards_col_sum_bounded;
use crate::util::HarmonicStepper;

verus! {

/// The curves come from linked repeated runs of a freshly built game: a
/// greedy agent with a warm-up-one harmonic stepper and initial estimates
/// from the narrow window around `agent_start`, playing a Bernoulli bandit
/// with the given success probabilities.
pub open spec fn greedy_bernoulli_outcome(
    runs: int,
    iterations: int,
    agent_start: i64,
    probs: Seq<i64>,
    wins_curve: Seq<i64>,
    rewards_curve: Seq<i64>,
) -> bool {
    exists|g: Game<GreedyAgent<HarmonicStepper>, BinomialBandit>|
        {
            &&& single_trial_bandit(g.bandit, probs)
            &&& fresh_harmonic(g.agent.stepper, probs.len() as int)
            &&& g.agent.q_star@.len() == probs.len()
            &&& estimates_in(g.agent.q_star@, window_lo(agent_start), window_hi(agent_start))
            &&& g.wins.record@ == Seq::<u32>::empty()
            &&& g.rewards.record@ == Seq::<i64>::empty()
            &&& #[trigger] multiple_runs_outcome(
                g,
                runs,
                iterations,
                window_lo(agent_start),
                window_hi(agent_start),
                wins_curve,
                rewards_curve,
            )
        }
}

/// Plays a greedy agent against a Bernoulli bandit with the given success
/// probabilities, repeating `runs` runs of `iterations` pulls, and returns
/// the per-iteration expected win rate and expected reward.
///
/// The agent's initial estimates are drawn from a narrow uniform window
/// around `agent_start`. Construction fails exactly when `rewards` is empty
/// or holds a probability outside `[0, 1]`. On success both curves are the
/// averaged outcomes of the witnessed runs, and both lie in `[0, 1]`: the
/// single-trial arms pay zero or one.
pub fn greedy_bernoulli(runs: u32, iterations: u32, agent_start: i64, rewards: Vec<i64>) -> (r:
    Option<(Vec<i64>, Vec<i64>)>)
    requires
        runs > 0,
        -VALUE_MAX <= agent_start <= VALUE_MAX,
    ensures
        r is Some <==> rewards@.len() > 0 && (forall|i: int|
            0 <= i < rewards@.len() ==> 0 <= #[trigger] rewards@[i] <= SCALE),
        r matches Some(curves) ==> curves.0@.len() == iterations && curves.1@.len() == iterations
            && (forall|i: int| 0 <= i < iterations ==> 0 <= #[trigger] curves.0@[i] <= SCALE) && (
        forall|i: int| 0 <= i < iterations ==> 0 <= #[trigger] curves.1@[i] <= SCALE),
        r matches Some(curves) ==> greedy_bernoulli_outcome(
            runs as int,
            iterations as int,
            agent_start,
            rewards@,
            curves.0@,
            curves.1@,
        ),
{
    let ghost probs_view = rewards@;
    let arm_count: usize = rewards.len();
    let mut ones: Vec<u32> = Vec::new();
    let mut k: usize = 0;
    while k < arm_count
        invariant
            k <= arm_count,
            ones@.len() == k,
            forall|i: int| 0 <= i < k ==> #[trigger] ones@[i] == 1,
        decreases arm_count - k,
    {
        ones.push(1);
        k = k + 1;
    }
    let bandit_opt: Option<BinomialBandit> = BinomialBandit::new(ones, rewards);
    let bandit: BinomialBandit = match bandit_opt {
        Some(b) => b,
        None => {
            return None;
        },
    };
    let lo: i64 = sub_fp(agent_start, 100);
    let hi: i64 = add_fp(agent_start, 100);
    let q_init: Vec<i64> = random_init(lo, hi, arm_count);
    let stepper: HarmonicStepper = HarmonicStepper::new(1, arm_count);
    let agent: GreedyAgent<HarmonicStepper> = GreedyAgent::new(q_init, stepper);
    let game_opt: Option<Game<GreedyAgent<HarmonicStepper>, BinomialBandit>> = Game::new(
        agent,
        bandit,
    );
    let mut game: Game<GreedyAgent<HarmonicStepper>, BinomialBandit> = match game_opt {
        Some(g) => g,
        None => {
            return None;
        },
    };
    let ghost g0 = game;
    let curves: (Vec<i64>, Vec<i64>) = multiple_runs(&mut game, runs, iterations, lo, hi);
    proof {
        assert(lo == window_lo(agent_start));
        assert(hi == window_hi(agent_start));
        assert(single_trial_bandit(g0.bandit, probs_view));
        assert(fresh_harmonic(g0.agent.stepper, probs_view.len() as int));
        assert(greedy_bernoulli_outcome(
            runs as int,
            iterations as int,
            agent_start,
            probs_view,
            curves.0@,
            curves.1@,
        ));
        lemma_single_trial_curve_in_unit(g0, runs as int, iterations as int, lo, hi, curves.1@);
    }
    Some(curves)
}

/// Against single-trial Bernoulli arms, every averaged reward-curve entry of
/// witnessed repeated runs lies in `[0, 1]`: each drawn reward is a success
/// count of at most one trial.
pub(crate) proof fn lemma_single_trial_curve_in_unit<A: Agent>(
    start: Game<A, BinomialBandit>,
    runs: int,
    iterations: int,
    lo: i64,
    hi: i64,
    rewards_curve: Seq<i64>,
)
    requires
        forall|i: int| 0 <= i < start.bandit.nums@.len() ==> #[trigger] start.bandit.nums@[i] == 1,
        start.agent.estimates().len() == start.bandit.nums@.len(),
        exists|wc: Seq<i64>| #[trigger] multiple_runs_outcome(
            start,
            runs,
            iterations,
            lo,
            hi,
            wc,
            rewards_curve,
        ),
    ensures
        forall|i: int| 0 <= i < iterations ==> 0 <= #[trigger] rewards_curve[i] <= SCALE,
{
    let wc = choose|wc: Seq<i64>| #[trigger] multiple_runs_outcome(
        start,
        runs,
        iterations,
        lo,
        hi,
        wc,
        rewards_curve,
    );
    let posts = choose|posts: Seq<Game<A, BinomialBandit>>|
        multiple_runs_witness(start, posts, runs, iterations, lo, hi, wc, rewards_curve);
    assert forall|i: int| 0 <= i < iterations implies 0 <= #[trigger] rewards_curve[i]
        <= SCALE by {
        assert forall|k: int|
            0 <= k < posts.len() implies 0 <= #[trigger] posts[k].rewards.record@[i] <= SCALE by {
            let x = posts[k].rewards.record@[i];
            assert(reward_entry_ok(start.agent.estimates().len() as int, start.bandit, x));
            let a = choose|a: int|
                0 <= a < start.agent.estimates().len() && #[trigger] start.bandit.reward_ok(a, x);
            let nv = start.bandit.nums@[a] as int;
            assert(nv == 1);
            assert(nv * (SCALE as int) == SCALE) by (nonlinear_arith)
                requires
                    nv == 1,
            ;
        }
        lemma_rewards_col_sum_bounded(posts, i, SCALE as int);
        let cs = rewards_col_sum(posts, i);
        assert(0 <= cs / runs <= SCALE) by (nonlinear_arith)
            requires
                0 <= cs <= runs * (SCALE as int),
                runs > 0,
        ;
        assert(rewards_curve[i] == tdiv(cs, runs));
    }
}

} // verus!
