//! Grid points over pairs of Bernoulli success probabilities.

use vstd::prelude::*;

use crate::agent::EpsilonGreedyAgent;
use crate::agent::GreedyAgent;
use crate::agent::OptimisticAgent;
use crate::bandit::BinomialBandit;
use crate::fixed::add_fp;
use crate::fixed::sub_fp;
use crate::fixed::SCALE;
use crate::fixed::VALUE_MAX;
use crate::game::Game;
use crate::run::estimates_in;
use crate::run::fresh_harmonic;
use crate::run::greedy_bernoulli::lemma_single_trial_curve_in_unit;
use crate::run::multiple_runs;
use crate::run::multiple_runs_outcome;
use crate::run::random_init;
use crate::run::single_trial_bandit;
use crate::run::window_hi;
use crate::run::window_lo;
use crate::run::Policy;
use crate::util::HarmonicStepper;

verus! {

/// The grid value at index `k`: the probability `k / 100` in fixed point.
pub open spec fn grid_point(k: int) -> i64 {
    (k * 10_000_000) as i64
}

/// Lexicographic order on probability pairs.
pub open spec fn lex_lt(a: (i64, i64), b: (i64, i64)) -> bool {
    a.0 < b.0 || (a.0 == b.0 && a.1 < b.1)
}

/// The sequence holds the grid pair with indices `i` and `j`.
pub open spec fn has_pair(s: Seq<(i64, i64)>, i: int, j: int) -> bool {
    exists|k: int| 0 <= k < s.len() && s[k] == (grid_point(i), grid_point(j))
}

/// The pair is a grid pair: both coordinates are hundredths with the first
/// strictly below the second.
pub open spec fn is_grid_pair(p: (i64, i64)) -> bool {
    exists|i: int, j: int| 1 <= i < j <= 99 && p == (grid_point(i), grid_point(j))
}

/// Enumerates the Bernoulli pair grid: every unordered pair of distinct
/// success probabilities from `0.01, 0.02, ..., 0.99`, each appearing once
/// with the smaller probability first, in increasing lexicographic order.
pub fn bernoulli_pairs() -> (r: Vec<(i64, i64)>)
    ensures
        forall|k: int| 0 <= k < r@.len() ==> is_grid_pair(#[trigger] r@[k]),
        forall|k1: int, k2: int| 0 <= k1 < k2 < r@.len() ==> lex_lt(r@[k1], r@[k2]),
        forall|i: int, j: int| 1 <= i < j <= 99 ==> has_pair(r@, i, j),
{
    let mut pairs: Vec<(i64, i64)> = Vec::new();
    let mut i: u32 = 1;
    while i < 100
        invariant
            1 <= i <= 100,
            forall|k: int| 0 <= k < pairs@.len() ==> is_grid_pair(#[trigger] pairs@[k]),
            forall|k1: int, k2: int|
                0 <= k1 < k2 < pairs@.len() ==> lex_lt(pairs@[k1], pairs@[k2]),
            forall|k: int|
                0 <= k < pairs@.len() ==> (#[trigger] pairs@[k]).0 < grid_point(i as int),
            forall|i0: int, j0: int|
                1 <= i0 < j0 <= 99 && i0 < i ==> has_pair(pairs@, i0, j0),
        decreases 100 - i,
    {
        let mut j: u32 = i + 1;
        while j < 100
            invariant
                1 <= i <= 99,
                i + 1 <= j <= 100,
                forall|k: int| 0 <= k < pairs@.len() ==> is_grid_pair(#[trigger] pairs@[k]),
                forall|k1: int, k2: int|
                    0 <= k1 < k2 < pairs@.len() ==> lex_lt(pairs@[k1], pairs@[k2]),
                forall|k: int|
                    0 <= k < pairs@.len() ==> lex_lt(
                        #[trigger] pairs@[k],
                        (grid_point(i as int), grid_point(j as int)),
                    ),
                forall|i0: int, j0: int|
                    1 <= i0 < j0 <= 99 && i0 < i ==> has_pair(pairs@, i0, j0),
                forall|j0: int| i < j0 < j ==> has_pair(pairs@, i as int, j0),
            decreases 100 - j,
        {
            let x: i64 = (i as i64) * 10_000_000;
            let y: i64 = (j as i64) * 10_000_000;
            let ghost pre = pairs@;
            pairs.push((x, y));
            proof {
                assert(pairs@[pre.len() as int] == (grid_point(i as int), grid_point(j as int)));
                assert(is_grid_pair(pairs@[pre.len() as int]));
                assert forall|i0: int, j0: int|
                    1 <= i0 < j0 <= 99 && i0 < i implies has_pair(pairs@, i0, j0) by {
                    assert(has_pair(pre, i0, j0));
                    let k = choose|k: int|
                        0 <= k < pre.len() && pre[k] == (grid_point(i0), grid_point(j0));
                    assert(pairs@[k] == (grid_point(i0), grid_point(j0)));
                }
                assert forall|j0: int| i < j0 < j + 1 implies has_pair(
                    pairs@,
                    i as int,
                    j0,
                ) by {
                    if j0 < j {
                        assert(has_pair(pre, i as int, j0));
                        let k = choose|k: int|
                            0 <= k < pre.len() && pre[k] == (grid_point(i as int), grid_point(j0));
                        assert(pairs@[k] == (grid_point(i as int), grid_point(j0)));
                    } else {
                        assert(pairs@[pre.len() as int] == (
                            grid_point(i as int),
                            grid_point(j0),
                        ));
                    }
                }
            }
            j = j + 1;
        }
        proof {
            assert forall|k: int| 0 <= k < pairs@.len() implies (#[trigger] pairs@[k]).0
                < grid_point(i as int + 1) by {
                assert(lex_lt(pairs@[k], (grid_point(i as int), grid_point(100))));
            }
            assert forall|i0: int, j0: int|
                1 <= i0 < j0 <= 99 && i0 < i + 1 implies has_pair(pairs@, i0, j0) by {
                if i0 == i as int {
                    assert(i < j0 < 100);
                }
            }
        }
        i = i + 1;
    }
    pairs
}

/// Whether a fixed-point value is a probability in the unit interval.
pub open spec fn prob_ok(p: i64) -> bool {
    0 <= p <= SCALE
}

/// Whether a policy's hyperparameter is acceptable to its constructor.
pub open spec fn policy_ok(policy: Policy) -> bool {
    match policy {
        Policy::Greedy => true,
        Policy::EpsilonGreedy(e) => 0 < e < SCALE,
        Policy::Optimistic(c) => c > 0,
    }
}

/// The two success probabilities of a grid point, smaller first.
pub open spec fn pair_probs(pair: (i64, i64)) -> Seq<i64> {
    seq![pair.0, pair.1]
}

/// The curves come from linked repeated runs of a freshly built game: a
/// greedy agent with a warm-up-one harmonic stepper and windowed initial
/// estimates, playing the pair's two-armed Bernoulli bandit.
pub open spec fn pair_greedy_outcome(
    runs: int,
    iterations: int,
    agent_start: i64,
    pair: (i64, i64),
    wins_curve: Seq<i64>,
    rewards_curve: Seq<i64>,
) -> bool {
    exists|g: Game<GreedyAgent<HarmonicStepper>, BinomialBandit>|
        {
            &&& single_trial_bandit(g.bandit, pair_probs(pair))
            &&& fresh_harmonic(g.agent.stepper, 2)
            &&& g.agent.q_star@.len() == 2
            &&& estimates_in(g.agent.q_star@, window_lo(agent_start), window_hi(agent_start))
            &&& g.wins.record@ == Seq::<u32>::empty()
            &&& g.rewards.record@ == Seq::<i64>::empty()
            &&& #[trigger] multiple_runs_outcome(
                g,
                runs,
                iterations,
                window_lo(agent_start),
                window_hi(agent_start),
                wins_curve,
                rewards_curve,
            )
        }
}

/// As `pair_greedy_outcome`, for an epsilon-greedy agent with the given
/// exploration fraction.
pub open spec fn pair_epsilon_outcome(
    runs: int,
    iterations: int,
    agent_start: i64,
    pair: (i64, i64),
    epsilon: i64,
    wins_curve: Seq<i64>,
    rewards_curve: Seq<i64>,
) -> bool {
    exists|g: Game<EpsilonGreedyAgent<HarmonicStepper>, BinomialBandit>|
        {
            &&& single_trial_bandit(g.bandit, pair_probs(pair))
            &&& fresh_harmonic(g.agent.stepper, 2)
            &&& g.agent.q_star@.len() == 2
            &&& g.agent.epsilon == epsilon
            &&& estimates_in(g.agent.q_star@, window_lo(agent_start), window_hi(agent_start))
            &&& g.wins.record@ == Seq::<u32>::empty()
            &&& g.rewards.record@ == Seq::<i64>::empty()
            &&& #[trigger] multiple_runs_outcome(
                g,
                runs,
                iterations,
                window_lo(agent_start),
                window_hi(agent_start),
                wins_curve,
                rewards_curve,
            )
        }
}

/// As `pair_greedy_outcome`, for a fresh optimistic agent with the given
/// confidence constant.
pub open spec fn pair_optimistic_outcome(
    runs: int,
    iterations: int,
    agent_start: i64,
    pair: (i64, i64),
    c: i64,
    wins_curve: Seq<i64>,
    rewards_curve: Seq<i64>,
) -> bool {
    exists|g: Game<OptimisticAgent<HarmonicStepper>, BinomialBandit>|
        {
            &&& single_trial_bandit(g.bandit, pair_probs(pair))
            &&& fresh_harmonic(g.agent.stepper, 2)
            &&& g.agent.q_star@.len() == 2
            &&& g.agent.c == c
            &&& g.agent.total == 1
            &&& forall|i: int| 0 <= i < 2 ==> #[trigger] g.agent.arm_total@[i] == 1
            &&& estimates_in(g.agent.q_star@, window_lo(agent_start), window_hi(agent_start))
            &&& g.wins.record@ == Seq::<u32>::empty()
            &&& g.rewards.record@ == Seq::<i64>::empty()
            &&& #[trigger] multiple_runs_outcome(
                g,
                runs,
                iterations,
                window_lo(agent_start),
                window_hi(agent_start),
                wins_curve,
                rewards_curve,
            )
        }
}

/// Plays one grid point: a two-armed Bernoulli bandit with the pair's
/// success probabilities against the chosen policy, repeating `runs` runs of
/// `iterations` pulls each, and returns the per-iteration expected win rate
/// and expected reward.
///
/// Construction fails exactly when a probability leaves the unit interval or
/// the policy's hyperparameter is out of its domain. On success the curves
/// are the averaged outcomes of the witnessed runs of the chosen policy, and
/// both lie in `[0, 1]`: the single-trial arms pay zero or one.
pub fn pair_bernoulli(
    runs: u32,
    iterations: u32,
    agent_start: i64,
    pair: (i64, i64),
    policy: Policy,
) -> (r: Option<(Vec<i64>, Vec<i64>)>)
    requires
        runs > 0,
        -VALUE_MAX <= agent_start <= VALUE_MAX,
    ensures
        r is Some <==> prob_ok(pair.0) && prob_ok(pair.1) && policy_ok(policy),
        r matches Some(curves) ==> curves.0@.len() == iterations && curves.1@.len() == iterations
            && (forall|i: int| 0 <= i < iterations ==> 0 <= #[trigger] curves.0@[i] <= SCALE) && (
        forall|i: int| 0 <= i < iterations ==> 0 <= #[trigger] curves.1@[i] <= SCALE),
        r matches Some(curves) ==> match policy {
            Policy::Greedy => pair_greedy_outcome(
                runs as int,
                iterations as int,
                agent_start,
                pair,
                curves.0@,
                curves.1@,
            ),
            Policy::EpsilonGreedy(e) => pair_epsilon_outcome(
                runs as int,
                iterations as int,
                agent_start,
                pair,
                e,
                curves.0@,
                curves.1@,
            ),
            Policy::Optimistic(c) => pair_optimistic_outcome(
                runs as int,
                iterations as int,
                agent_start,
                pair,
                c,
                curves.0@,
                curves.1@,
            ),
        },
{
    let mut ones: Vec<u32> = Vec::new();
    ones.push(1);
    ones.push(1);
    let mut probs: Vec<i64> = Vec::new();
    probs.push(pair.0);
    probs.push(pair.1);
    let ghost ones_view = ones@;
    let ghost probs_view = probs@;
    let bandit_opt: Option<BinomialBandit> = BinomialBandit::new(ones, probs);
    proof {
        assert(ones_view[0] == 1 && ones_view[1] == 1);
        assert(probs_view[0] == pair.0 && probs_view[1] == pair.1);
        assert forall|i: int| 0 <= i < ones_view.len() implies #[trigger] ones_view[i] >= 1 by {
            assert(i == 0 || i == 1);
        }
        if prob_ok(pair.0) && prob_ok(pair.1) {
            assert forall|i: int|
                0 <= i < probs_view.len() implies 0 <= #[trigger] probs_view[i] <= SCALE by {
                assert(i == 0 || i == 1);
            }
            assert(bandit_opt is Some);
        }
        if bandit_opt is Some {
            assert(prob_ok(pair.0) && prob_ok(pair.1)) by {
                assert(0 <= probs_view[0] <= SCALE);
                assert(0 <= probs_view[1] <= SCALE);
            }
        }
    }
    let bandit: BinomialBandit = match bandit_opt {
        Some(b) => b,
        None => {
            return None;
        },
    };
    let lo: i64 = sub_fp(agent_start, 100);
    let hi: i64 = add_fp(agent_start, 100);
    let q_init: Vec<i64> = random_init(lo, hi, 2);
    let stepper: HarmonicStepper = HarmonicStepper::new(1, 2);
    proof {
        assert(probs_view =~= pair_probs(pair));
        assert(lo == window_lo(agent_start));
        assert(hi == window_hi(agent_start));
    }
    match policy {
        Policy::Greedy => {
            let agent: GreedyAgent<HarmonicStepper> = GreedyAgent::new(q_init, stepper);
            let mut game: Game<GreedyAgent<HarmonicStepper>, BinomialBandit> = Game::new(
                agent,
                bandit,
            ).unwrap();
            let ghost g0 = game;
            let curves: (Vec<i64>, Vec<i64>) = multiple_runs(&mut game, runs, iterations, lo, hi);
            proof {
                assert(pair_greedy_outcome(
                    runs as int,
                    iterations as int,
                    agent_start,
                    pair,
                    curves.0@,
                    curves.1@,
                ));
                lemma_single_trial_curve_in_unit(
                    g0,
                    runs as int,
                    iterations as int,
                    lo,
                    hi,
                    curves.1@,
                );
            }
            Some(curves)
        },
        Policy::EpsilonGreedy(e) => {
            let agent_opt: Option<EpsilonGreedyAgent<HarmonicStepper>> = EpsilonGreedyAgent::new(
                q_init,
                stepper,
                e,
            );
            match agent_opt {
                Some(agent) => {
                    let mut game: Game<EpsilonGreedyAgent<HarmonicStepper>, BinomialBandit> =
                        Game::new(agent, bandit).unwrap();
                    let ghost g0 = game;
                    let curves: (Vec<i64>, Vec<i64>) = multiple_runs(
                        &mut game,
                        runs,
                        iterations,
                        lo,
                        hi,
                    );
                    proof {
                        assert(pair_epsilon_outcome(
                            runs as int,
                            iterations as int,
                            agent_start,
                            pair,
                            e,
                            curves.0@,
                            curves.1@,
                        ));
                        lemma_single_trial_curve_in_unit(
                            g0,
                            runs as int,
                            iterations as int,
                            lo,
                            hi,
                            curves.1@,
                        );
                    }
                    Some(curves)
                },
                None => None,
            }
        },
        Policy::Optimistic(c) => {
            let agent_opt: Option<OptimisticAgent<HarmonicStepper>> = OptimisticAgent::new(
                q_init,
                c,
                stepper,
            );
            match agent_opt {
                Some(agent) => {
                    let mut game: Game<OptimisticAgent<HarmonicStepper>, BinomialBandit> =
                        Game::new(agent, bandit).unwrap();
                    let ghost g0 = game;
                    let curves: (Vec<i64>, Vec<i64>) = multiple_runs(
                        &mut game,
                        runs,
                        iterations,
                        lo,
                        hi,
                    );
                    proof {
                        assert(pair_optimistic_outcome(
                            runs as int,
                            iterations as int,
                            agent_start,
                            pair,
                            c,
                            curves.0@,
                            curves.1@,
                        ));
                        lemma_single_trial_curve_in_unit(
                            g0,
                            runs as int,
                            iterations as int,
                            lo,
                            hi,
                            curves.1@,
                        );
                    }
                    Some(curves)
                },
                None => None,
            }
        },
    }
}

} // verus!
