//! A sweep of Bernoulli grid points run one after another.

use vstd::prelude::*;

use crate::agent::EpsilonGreedyAgent;
use crate::agent::GreedyAgent;
use crate::bandit::BinomialBandit;
use crate::fixed::add_fp;
use crate::fixed::sub_fp;
use crate::fixed::SCALE;
use crate::fixed::VALUE_MAX;
use crate::game::Game;
use crate::run::estimates_in;
use crate::run::fresh_harmonic;
use crate::run::multiple_runs;
use crate::run::multiple_runs_outcome;
use crate::run::random_init;
use crate::run::single_trial_bandit;
use crate::run::window_hi;
use crate::run::window_lo;
use crate::run::Policy;
use crate::util::HarmonicStepper;

verus! {

/// The policies this sweep distinguishes: an epsilon must lie strictly
/// inside the unit interval; any other policy plays greedily.
pub open spec fn sequential_policy_ok(policy: Policy) -> bool {
    match policy {
        Policy::EpsilonGreedy(e) => 0 < e < SCALE,
        _ => true,
    }
}

/// The fixed spread of probability increments laid over each base
/// probability of the sweep, one per arm.
pub open spec fn spec_increment(j: int) -> i64 {
    if j == 0 {
        40_000_000
    } else if j == 1 {
        90_000_000
    } else if j == 2 {
        20_000_000
    } else if j == 3 {
        60_000_000
    } else if j == 4 {
        70_000_000
    } else if j == 5 {
        80_000_000
    } else if j == 6 {
        30_000_000
    } else if j == 7 {
        10_000_000
    } else if j == 8 {
        50_000_000
    } else {
        0
    }
}

/// The ten arm probabilities of sweep point `k`: the base probability
/// `(k + 1) / 10` plus the fixed spread of increments.
pub open spec fn sweep_probs(k: int) -> Seq<i64> {
    Seq::new(10, |j: int| (spec_increment(j) + (k + 1) * 100_000_000) as i64)
}

/// The curves of sweep point `k` come from linked repeated runs of a freshly
/// built game over the point's ten-armed Bernoulli bandit: the asked-for
/// epsilon-greedy agent, or the greedy agent for any other request, with a
/// warm-up-one harmonic stepper and windowed initial estimates.
pub open spec fn sequential_point_outcome(
    runs: int,
    iterations: int,
    agent_start: i64,
    policy: Policy,
    k: int,
    wins_curve: Seq<i64>,
    rewards_curve: Seq<i64>,
) -> bool {
    match policy {
        Policy::EpsilonGreedy(e) => exists|
            g: Game<EpsilonGreedyAgent<HarmonicStepper>, BinomialBandit>,
        |
            {
                &&& single_trial_bandit(g.bandit, sweep_probs(k))
                &&& fresh_harmonic(g.agent.stepper, 10)
                &&& g.agent.q_star@.len() == 10
                &&& g.agent.epsilon == e
                &&& estimates_in(g.agent.q_star@, window_lo(agent_start), window_hi(agent_start))
                &&& g.wins.record@ == Seq::<u32>::empty()
                &&& g.rewards.record@ == Seq::<i64>::empty()
                &&& #[trigger] multiple_runs_outcome(
                    g,
                    runs,
                    iterations,
                    window_lo(agent_start),
                    window_hi(agent_start),
                    wins_curve,
                    rewards_curve,
                )
            },
        _ => exists|g: Game<GreedyAgent<HarmonicStepper>, BinomialBandit>|
            {
                &&& single_trial_bandit(g.bandit, sweep_probs(k))
                &&& fresh_harmonic(g.agent.stepper, 10)
                &&& g.agent.q_star@.len() == 10
                &&& estimates_in(g.agent.q_star@, window_lo(agent_start), window_hi(agent_start))
                &&& g.wins.record@ == Seq::<u32>::empty()
                &&& g.rewards.record@ == Seq::<i64>::empty()
                &&& #[trigger] multiple_runs_outcome(
                    g,
                    runs,
                    iterations,
                    window_lo(agent_start),
                    window_hi(agent_start),
                    wins_curve,
                    rewards_curve,
                )
            },
    }
}

/// Sweeps nine Bernoulli grid points: for each base probability
/// `0.1, 0.2, ..., 0.9`, plays a ten-armed Bernoulli bandit whose arm
/// probabilities are the base plus a fixed spread of increments, and returns
/// one entry per grid point holding the base probability and the
/// per-iteration expected win-rate and reward curves.
///
/// The epsilon-greedy policy is played when asked for; any other request
/// plays the greedy policy. Construction fails exactly when an epsilon lies
/// outside the open unit interval.
pub fn sequential_bernoulli(runs: u32, iterations: u32, agent_start: i64, policy: Policy) -> (r:
    Option<Vec<(i64, Vec<i64>, Vec<i64>)>>)
    requires
        runs > 0,
        -VALUE_MAX <= agent_start <= VALUE_MAX,
    ensures
        r is Some <==> sequential_policy_ok(policy),
        r matches Some(points) ==> points@.len() == 9 && (forall|k: int|
            0 <= k < 9 ==> (#[trigger] points@[k]).0 == (k + 1) * 100_000_000 && points@[k].1@.len()
                == iterations && points@[k].2@.len() == iterations),
        r matches Some(points) ==> forall|k: int|
            0 <= k < 9 ==> sequential_point_outcome(
                runs as int,
                iterations as int,
                agent_start,
                policy,
                k,
                (#[trigger] points@[k]).1@,
                points@[k].2@,
            ),
{
    if let Policy::EpsilonGreedy(e) = policy {
        if e <= 0 || e >= SCALE {
            return None;
        }
    }
    let mut increments: Vec<i64> = Vec::new();
    increments.push(40_000_000);
    increments.push(90_000_000);
    increments.push(20_000_000);
    increments.push(60_000_000);
    increments.push(70_000_000);
    increments.push(80_000_000);
    increments.push(30_000_000);
    increments.push(10_000_000);
    increments.push(50_000_000);
    increments.push(0);
    let mut ones: Vec<u32> = Vec::new();
    let mut k: usize = 0;
    while k < 10
        invariant
            k <= 10,
            ones@.len() == k,
            forall|i: int| 0 <= i < k ==> #[trigger] ones@[i] == 1,
        decreases 10 - k,
    {
        ones.push(1);
        k = k + 1;
    }
    proof {
        assert forall|j: int| 0 <= j < 10 implies #[trigger] increments@[j] == spec_increment(
            j,
        ) by {
        }
    }
    let lo: i64 = sub_fp(agent_start, 100);
    let hi: i64 = add_fp(agent_start, 100);
    proof {
        assert(lo == window_lo(agent_start));
        assert(hi == window_hi(agent_start));
    }
    let mut points: Vec<(i64, Vec<i64>, Vec<i64>)> = Vec::new();
    let mut step: usize = 1;
    while step <= 9
        invariant
            1 <= step <= 10,
            runs > 0,
            -VALUE_MAX <= agent_start <= VALUE_MAX,
            lo < hi,
            lo == window_lo(agent_start),
            hi == window_hi(agent_start),
            increments@.len() == 10,
            forall|i: int| 0 <= i < 10 ==> 0 <= #[trigger] increments@[i] <= 90_000_000,
            forall|j: int| 0 <= j < 10 ==> #[trigger] increments@[j] == spec_increment(j),
            ones@.len() == 10,
            forall|i: int| 0 <= i < 10 ==> #[trigger] ones@[i] == 1,
            sequential_policy_ok(policy),
            points@.len() == step - 1,
            forall|k0: int|
                0 <= k0 < step - 1 ==> (#[trigger] points@[k0]).0 == (k0 + 1) * 100_000_000
                    && points@[k0].1@.len() == iterations && points@[k0].2@.len() == iterations,
            forall|k0: int|
                0 <= k0 < step - 1 ==> sequential_point_outcome(
                    runs as int,
                    iterations as int,
                    agent_start,
                    policy,
                    k0,
                    (#[trigger] points@[k0]).1@,
                    points@[k0].2@,
                ),
        decreases 10 - step,
    {
        let x: i64 = (step as i64) * 100_000_000;
        let mut rewards: Vec<i64> = Vec::new();
        let mut i: usize = 0;
        while i < 10
            invariant
                i <= 10,
                1 <= step <= 9,
                x == step * 100_000_000,
                increments@.len() == 10,
                forall|j: int| 0 <= j < 10 ==> 0 <= #[trigger] increments@[j] <= 90_000_000,
                forall|j: int| 0 <= j < 10 ==> #[trigger] increments@[j] == spec_increment(j),
                rewards@.len() == i,
                forall|j: int| 0 <= j < i ==> 0 <= #[trigger] rewards@[j] <= SCALE,
                forall|j: int|
                    0 <= j < i ==> #[trigger] rewards@[j] == spec_increment(j) + x,
            decreases 10 - i,
        {
            rewards.push(increments[i] + x);
            i = i + 1;
        }
        proof {
            assert(rewards@ =~= sweep_probs(step - 1));
        }
        let bandit: BinomialBandit = BinomialBandit::new(ones.clone(), rewards).unwrap();
        let q_init: Vec<i64> = random_init(lo, hi, 10);
        let stepper: HarmonicStepper = HarmonicStepper::new(1, 10);
        let curves: (Vec<i64>, Vec<i64>) = match policy {
            Policy::EpsilonGreedy(e) => {
                let agent: EpsilonGreedyAgent<HarmonicStepper> = EpsilonGreedyAgent::new(
                    q_init,
                    stepper,
                    e,
                ).unwrap();
                let mut game: Game<EpsilonGreedyAgent<HarmonicStepper>, BinomialBandit> =
                    Game::new(agent, bandit).unwrap();
                let ghost g0 = game;
                let out: (Vec<i64>, Vec<i64>) = multiple_runs(&mut game, runs, iterations, lo, hi);
                proof {
                    assert(single_trial_bandit(g0.bandit, sweep_probs(step - 1)));
                    assert(sequential_point_outcome(
                        runs as int,
                        iterations as int,
                        agent_start,
                        policy,
                        step - 1,
                        out.0@,
                        out.1@,
                    ));
                }
                out
            },
            _ => {
                let agent: GreedyAgent<HarmonicStepper> = GreedyAgent::new(q_init, stepper);
                let mut game: Game<GreedyAgent<HarmonicStepper>, BinomialBandit> = Game::new(
                    agent,
                    bandit,
                ).unwrap();
                let ghost g0 = game;
                let out: (Vec<i64>, Vec<i64>) = multiple_runs(&mut game, runs, iterations, lo, hi);
                proof {
                    assert(single_trial_bandit(g0.bandit, sweep_probs(step - 1)));
                    assert(sequential_point_outcome(
                        runs as int,
                        iterations as int,
                        agent_start,
                        policy,
                        step - 1,
                        out.0@,
                        out.1@,
                    ));
                }
                out
            },
        };
        points.push((x, curves.0, curves.1));
        step = step + 1;
    }
    Some(points)
}

} // verus!
