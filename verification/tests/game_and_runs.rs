use ratel::bernoulli_pairs;
use ratel::greedy_bernoulli;
use ratel::pair_bernoulli;
use ratel::sequential_bernoulli;
use ratel::Agent;
use ratel::OptimisticAgent;
use ratel::BinomialBandit;
use ratel::Game;
use ratel::GreedyAgent;
use ratel::HarmonicStepper;
use ratel::Policy;
use ratel::SCALE;

/// A real value as a fixed-point count of billionths.
fn fp(x: f64) -> i64 {
    (x * 1e9).round() as i64
}

fn two_armed_game() -> Game<GreedyAgent<HarmonicStepper>, BinomialBandit> {
    let ones: Vec<u32> = vec![1, 1];
    let probs: Vec<i64> = vec![fp(0.3), fp(0.8)];
    let bandit = BinomialBandit::new(ones, probs).unwrap();
    let agent = GreedyAgent::new(vec![fp(0.5), fp(0.5)], HarmonicStepper::new(1, 2));
    Game::new(agent, bandit).unwrap()
}

#[test]
fn game_rejects_mismatched_arm_counts() {
    let ones: Vec<u32> = vec![1, 1, 1];
    let probs: Vec<i64> = vec![fp(0.3), fp(0.8), fp(0.5)];
    let bandit = BinomialBandit::new(ones, probs).unwrap();
    let agent = GreedyAgent::new(vec![fp(0.5), fp(0.5)], HarmonicStepper::new(1, 2));
    assert!(Game::new(agent, bandit).is_none());
}

#[test]
fn game_reports_matching_arm_count() {
    let game = two_armed_game();
    assert_eq!(game.arms(), 2);
}

#[test]
fn game_run_records_one_entry_per_pull() {
    let mut game = two_armed_game();
    game.run(25);
    assert_eq!(game.wins().len(), 25);
    assert_eq!(game.rewards().len(), 25);
    for &w in game.wins().iter() {
        assert!(w == 0 || w == 1);
    }
    for &r in game.rewards().iter() {
        assert!(r == 0 || r == fp(1.0));
    }
    game.run(5);
    assert_eq!(game.wins().len(), 30);
    assert_eq!(game.rewards().len(), 30);
}

#[test]
fn game_reset_empties_both_counters() {
    let mut game = two_armed_game();
    game.run(10);
    game.reset(vec![fp(0.2), fp(0.9)]);
    assert_eq!(game.wins().len(), 0);
    assert_eq!(game.rewards().len(), 0);
    assert_eq!(game.agent.current_estimate(0), fp(0.2));
    assert_eq!(game.agent.current_estimate(1), fp(0.9));
}

#[test]
fn greedy_learns_the_certain_arm() {
    let ones: Vec<u32> = vec![1, 1];
    let probs: Vec<i64> = vec![0, fp(1.0)];
    let bandit = BinomialBandit::new(ones, probs).unwrap();
    let agent = GreedyAgent::new(vec![fp(0.5), fp(0.5)], HarmonicStepper::new(1, 2));
    let mut game = Game::new(agent, bandit).unwrap();
    game.run(50);
    // the last pulls all hit the winning arm
    let wins = game.wins();
    assert_eq!(wins[49], 1);
    assert_eq!(wins[48], 1);
}

#[test]
fn greedy_bernoulli_returns_curves_of_requested_length() {
    let rewards: Vec<i64> = vec![fp(0.2), fp(0.7), fp(0.4)];
    let (wins, rew) = greedy_bernoulli(5, 12, fp(0.5), rewards).unwrap();
    assert_eq!(wins.len(), 12);
    assert_eq!(rew.len(), 12);
    for &w in wins.iter() {
        assert!(0 <= w && w <= SCALE);
    }
    for &r in rew.iter() {
        assert!(0 <= r && r <= SCALE);
    }
}

#[test]
fn greedy_bernoulli_rejects_bad_probabilities() {
    assert!(greedy_bernoulli(5, 12, fp(0.5), vec![fp(0.2), fp(1.7)]).is_none());
    assert!(greedy_bernoulli(5, 12, fp(0.5), Vec::new()).is_none());
}

#[test]
fn pair_bernoulli_runs_every_policy() {
    let pair = (fp(0.25), fp(0.75));
    let (w1, r1) = pair_bernoulli(4, 10, fp(0.5), pair, Policy::Greedy).unwrap();
    assert_eq!(w1.len(), 10);
    assert_eq!(r1.len(), 10);
    let (w2, _) = pair_bernoulli(4, 10, fp(0.5), pair, Policy::EpsilonGreedy(fp(0.1))).unwrap();
    assert_eq!(w2.len(), 10);
    let (w3, _) = pair_bernoulli(4, 10, fp(0.5), pair, Policy::Optimistic(fp(2.0))).unwrap();
    assert_eq!(w3.len(), 10);
}

#[test]
fn pair_bernoulli_rejects_bad_configurations() {
    let pair = (fp(0.25), fp(0.75));
    assert!(pair_bernoulli(4, 10, fp(0.5), (fp(-0.1), fp(0.5)), Policy::Greedy).is_none());
    assert!(pair_bernoulli(4, 10, fp(0.5), pair, Policy::EpsilonGreedy(fp(1.5))).is_none());
    assert!(pair_bernoulli(4, 10, fp(0.5), pair, Policy::Optimistic(0)).is_none());
}

#[test]
fn sequential_bernoulli_sweeps_nine_grid_points() {
    let points = sequential_bernoulli(2, 6, fp(0.5), Policy::Greedy).unwrap();
    assert_eq!(points.len(), 9);
    for (k, (x, wins, rewards)) in points.iter().enumerate() {
        assert_eq!(*x, ((k + 1) as i64) * fp(0.1));
        assert_eq!(wins.len(), 6);
        assert_eq!(rewards.len(), 6);
    }
    assert!(sequential_bernoulli(2, 6, fp(0.5), Policy::EpsilonGreedy(fp(2.0))).is_none());
    assert!(sequential_bernoulli(2, 6, fp(0.5), Policy::EpsilonGreedy(fp(0.2))).is_some());
}

#[test]
fn bernoulli_pairs_enumerates_ordered_grid() {
    let pairs = bernoulli_pairs();
    assert_eq!(pairs.len(), 99 * 98 / 2);
    assert_eq!(pairs[0], (fp(0.01), fp(0.02)));
    assert_eq!(pairs[97], (fp(0.01), fp(0.99)));
    assert_eq!(pairs[98], (fp(0.02), fp(0.03)));
    assert_eq!(pairs[pairs.len() - 1], (fp(0.98), fp(0.99)));
    for &(x, y) in pairs.iter() {
        assert!(0 < x && x < y && y < SCALE);
    }
    for w in pairs.windows(2) {
        assert!(w[0] < w[1]);
    }
}

#[test]
fn optimistic_game_runs_and_counts_pulls() {
    let ones: Vec<u32> = vec![1, 1];
    let probs: Vec<i64> = vec![fp(0.3), fp(0.8)];
    let bandit = BinomialBandit::new(ones, probs).unwrap();
    let agent =
        OptimisticAgent::new(vec![fp(0.5), fp(0.5)], fp(2.0), HarmonicStepper::new(1, 2)).unwrap();
    let mut game = Game::new(agent, bandit).unwrap();
    game.run(20);
    assert_eq!(game.wins().len(), 20);
    assert_eq!(game.agent.total, 21);
    let pulls: u32 = game.agent.arm_total().iter().sum();
    assert_eq!(pulls, 22);
}
