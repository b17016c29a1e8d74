use ratel::Agent;
use ratel::EpsilonGreedyAgent;
use ratel::GreedyAgent;
use ratel::HarmonicStepper;
use ratel::OptimisticAgent;
use ratel::SCALE;

/// A real value as a fixed-point count of billionths.
fn fp(x: f64) -> i64 {
    (x * 1e9).round() as i64
}

fn q_init() -> Vec<i64> {
    vec![fp(0.5), fp(0.61), fp(0.7), fp(0.12), fp(0.37)]
}

#[test]
fn greedy_test_action() {
    let stepper = HarmonicStepper::new(1, 5);
    let greedy = GreedyAgent::new(q_init(), stepper);
    assert_eq!(greedy.action(), 2)
}

#[test]
fn greedy_test_q_star() {
    let stepper = HarmonicStepper::new(1, 5);
    let greedy = GreedyAgent::new(q_init(), stepper);
    assert_eq!(greedy.q_star, q_init())
}

#[test]
fn greedy_test_reset() {
    let stepper = HarmonicStepper::new(1, 5);
    let mut greedy = GreedyAgent::new(q_init(), stepper);
    let new_q = vec![fp(0.01), fp(0.86), fp(0.43), fp(0.65), fp(0.66)];
    greedy.reset(new_q.clone());
    assert_eq!(greedy.q_star, new_q)
}

#[test]
fn epsilon_greedy_test_new() {
    let stepper = HarmonicStepper::new(1, 5);
    let eps = fp(0.1);
    let epsilon = EpsilonGreedyAgent::new(q_init(), stepper, eps).unwrap();
    assert_eq!(epsilon.epsilon, eps);
    assert_eq!(epsilon.q_star, q_init())
}

#[test]
fn epsilon_greedy_test_q_star() {
    let stepper = HarmonicStepper::new(1, 5);
    let epsilon = EpsilonGreedyAgent::new(q_init(), stepper, fp(0.1)).unwrap();
    assert_eq!(epsilon.q_star, q_init())
}

#[test]
fn epsilon_greedy_test_reset() {
    let stepper = HarmonicStepper::new(1, 5);
    let mut epsilon = EpsilonGreedyAgent::new(q_init(), stepper, fp(0.1)).unwrap();
    let new_q = vec![fp(0.01), fp(0.86), fp(0.43), fp(0.65), fp(0.66)];
    epsilon.reset(new_q.clone());
    assert_eq!(epsilon.q_star, new_q)
}

#[test]
fn epsilon_out_of_range_is_rejected() {
    let big = EpsilonGreedyAgent::new(q_init(), HarmonicStepper::new(1, 5), fp(1.3));
    assert!(big.is_none());
    let small = EpsilonGreedyAgent::new(q_init(), HarmonicStepper::new(1, 5), fp(-0.3));
    assert!(small.is_none());
    let one = EpsilonGreedyAgent::new(q_init(), HarmonicStepper::new(1, 5), SCALE);
    assert!(one.is_none());
    let zero = EpsilonGreedyAgent::new(q_init(), HarmonicStepper::new(1, 5), 0);
    assert!(zero.is_none());
}

#[test]
fn epsilon_suppressed_branch_acts_greedily() {
    let stepper = HarmonicStepper::new(1, 5);
    let epsilon = EpsilonGreedyAgent::new(q_init(), stepper, fp(0.1)).unwrap();
    for pick in 0..5 {
        assert_eq!(epsilon.action_given(fp(0.1), pick), 2);
        assert_eq!(epsilon.action_given(fp(0.99), pick), 2);
    }
    assert_eq!(epsilon.action_given(fp(0.05), 4), 4);
}

#[test]
fn epsilon_explores_under_high_epsilon() {
    let stepper = HarmonicStepper::new(1, 5);
    let epsilon = EpsilonGreedyAgent::new(q_init(), stepper, SCALE - 1).unwrap();
    let mut saw_other = false;
    for _ in 0..200 {
        if epsilon.action() != 2 {
            saw_other = true;
        }
    }
    assert!(saw_other);
}

#[test]
fn optimistic_test_new() {
    let stepper = HarmonicStepper::new(1, 5);
    let c = fp(2.0);
    let optimistic = OptimisticAgent::new(q_init(), c, stepper).unwrap();
    assert_eq!(optimistic.c, c);
    assert_eq!(optimistic.q_star, q_init())
}

#[test]
fn optimistic_test_action() {
    let stepper = HarmonicStepper::new(1, 5);
    let optimistic = OptimisticAgent::new(q_init(), fp(2.0), stepper).unwrap();
    assert_eq!(optimistic.action(), 2)
}

#[test]
fn optimistic_test_q_star() {
    let stepper = HarmonicStepper::new(1, 5);
    let optimistic = OptimisticAgent::new(q_init(), fp(2.0), stepper).unwrap();
    assert_eq!(optimistic.q_star, q_init())
}

#[test]
fn optimistic_test_reset() {
    let stepper = HarmonicStepper::new(1, 5);
    let mut optimistic = OptimisticAgent::new(q_init(), fp(2.0), stepper).unwrap();
    let new_q = vec![fp(0.01), fp(0.86), fp(0.43), fp(0.65), fp(0.66)];
    optimistic.reset(new_q.clone());
    assert_eq!(optimistic.q_star, new_q)
}

#[test]
fn optimistic_rejects_nonpositive_confidence() {
    let zero = OptimisticAgent::new(q_init(), 0, HarmonicStepper::new(1, 5));
    assert!(zero.is_none());
    let neg = OptimisticAgent::new(q_init(), fp(-1.5), HarmonicStepper::new(1, 5));
    assert!(neg.is_none());
}

#[test]
fn fresh_optimistic_with_equal_estimates_picks_first_arm() {
    let equal = vec![fp(0.4); 5];
    let stepper = HarmonicStepper::new(1, 5);
    let optimistic = OptimisticAgent::new(equal, fp(2.0), stepper).unwrap();
    assert_eq!(optimistic.action(), 0);
}

#[test]
fn agents_report_their_arm_count() {
    let greedy = GreedyAgent::new(q_init(), HarmonicStepper::new(1, 5));
    assert_eq!(greedy.arms(), 5);
    let epsilon = EpsilonGreedyAgent::new(q_init(), HarmonicStepper::new(1, 5), fp(0.1)).unwrap();
    assert_eq!(epsilon.arms(), 5);
    let optimistic = OptimisticAgent::new(q_init(), fp(2.0), HarmonicStepper::new(1, 5)).unwrap();
    assert_eq!(optimistic.arms(), 5);
    assert_eq!(greedy.current_estimate(2), fp(0.7));
}

#[test]
fn step_blends_reward_toward_estimate() {
    let stepper = HarmonicStepper::new(1, 2);
    let mut greedy = GreedyAgent::new(vec![0, 0], stepper);
    greedy.step(0, fp(1.0));
    assert_eq!(greedy.current_estimate(0), fp(1.0));
    greedy.step(0, fp(0.0));
    assert_eq!(greedy.current_estimate(0), fp(0.5));
    greedy.step(0, fp(1.0));
    // the sample average of 1, 0, 1 with truncating division
    assert_eq!(greedy.current_estimate(0), fp(0.5) + fp(0.5) / 3);
    assert_eq!(greedy.current_estimate(1), 0);
}
