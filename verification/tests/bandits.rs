use ratel::Bandit;
use ratel::BinomialBandit;
use ratel::ExponentialBandit;

/// A real value as a fixed-point count of billionths.
fn fp(x: f64) -> i64 {
    (x * 1e9).round() as i64
}

/// The fixed-point value read back as a real number.
fn as_float(v: i64) -> f64 {
    (v as f64) / 1e9
}

fn close(got: i64, want: f64) {
    assert!(
        (as_float(got) - want).abs() < 1e-6,
        "got {} want {}",
        as_float(got),
        want
    );
}

fn binomial() -> BinomialBandit {
    let nums_vec: Vec<u32> = vec![5, 4, 1, 8, 10];
    let probs_vec: Vec<i64> = vec![fp(0.97), fp(0.91), fp(0.77), fp(0.66), fp(0.57)];
    BinomialBandit::new(nums_vec, probs_vec).unwrap()
}

#[test]
fn binomial_test_arms() {
    assert_eq!(binomial().arms(), 5)
}

#[test]
fn binomial_test_best_arm() {
    assert_eq!(binomial().best_arm(), 4)
}

#[test]
fn binomial_test_max_reward() {
    close(binomial().max_reward(), 5.7)
}

#[test]
fn binomial_test_mean() {
    assert_eq!(binomial().mean(1), fp(3.64))
}

#[test]
fn binomial_test_means() {
    let means = binomial().means();
    let expected = vec![4.85, 3.64, 0.77, 5.28, 5.7];
    for (m, e) in means.iter().zip(expected) {
        close(*m, e);
    }
}

#[test]
fn binomial_test_reward() {
    let binom = binomial();
    for _ in 0..1000 {
        binom.reward(2);
    }
}

#[test]
fn binomial_test_std() {
    close(binomial().std_dev(1), 0.5723635)
}

#[test]
fn binomial_test_stds() {
    let stds = binomial().stds();
    let expected = vec![0.38144462, 0.57236352, 0.42083251, 1.33985074, 1.56556699];
    for (s, e) in stds.iter().zip(expected) {
        close(*s, e);
    }
}

#[test]
fn binomial_rejects_bad_parameters() {
    let nums: Vec<u32> = vec![5, 4, 1, 8, 10];
    let big = vec![fp(0.97), fp(0.91), fp(0.77), fp(0.66), fp(1.05)];
    assert!(BinomialBandit::new(nums.clone(), big).is_none());
    let neg = vec![fp(0.97), fp(0.91), fp(0.77), fp(0.66), fp(-0.05)];
    assert!(BinomialBandit::new(nums.clone(), neg).is_none());
    let short = vec![fp(0.97), fp(0.91), fp(0.77), fp(0.66)];
    assert!(BinomialBandit::new(nums.clone(), short).is_none());
    let zero_trials: Vec<u32> = vec![5, 4, 0, 8, 10];
    let probs = vec![fp(0.97), fp(0.91), fp(0.77), fp(0.66), fp(0.57)];
    assert!(BinomialBandit::new(zero_trials, probs.clone()).is_none());
    assert!(BinomialBandit::new(Vec::new(), Vec::new()).is_none());
}

#[test]
fn binomial_best_arm_tie_breaks_to_first() {
    let nums: Vec<u32> = vec![2, 1, 2];
    let probs = vec![fp(0.5), fp(1.0), fp(0.25)];
    let b = BinomialBandit::new(nums, probs).unwrap();
    assert_eq!(b.best_arm(), 0);
    assert_eq!(b.max_reward(), fp(1.0));
}

#[test]
fn binomial_rewards_are_success_counts() {
    let nums: Vec<u32> = vec![6];
    let probs = vec![fp(0.5)];
    let b = BinomialBandit::new(nums, probs).unwrap();
    for _ in 0..200 {
        let r = b.reward(0);
        assert!(r % fp(1.0) == 0);
        assert!(0 <= r && r <= fp(6.0));
    }
}

fn exponential() -> ExponentialBandit {
    let lambdas: Vec<i64> = vec![fp(6.1), fp(0.6), fp(5.4), fp(9.1), fp(3.5)];
    ExponentialBandit::new(lambdas).unwrap()
}

#[test]
fn exponential_test_arms() {
    assert_eq!(exponential().arms(), 5)
}

#[test]
fn exponential_test_best_arm() {
    assert_eq!(exponential().best_arm(), 1)
}

#[test]
fn exponential_test_max_reward() {
    close(exponential().max_reward(), 1.6666667)
}

#[test]
fn exponential_test_mean() {
    let lambdas: Vec<i64> = vec![fp(6.1), fp(0.6), fp(5.4), fp(9.1), fp(2.5)];
    let exp = ExponentialBandit::new(lambdas).unwrap();
    assert_eq!(exp.mean(4), fp(0.4))
}

#[test]
fn exponential_test_means() {
    let means = exponential().means();
    let lambdas = vec![6.1, 0.6, 5.4, 9.1, 3.5];
    for (m, l) in means.iter().zip(lambdas) {
        close(*m, 1.0 / l);
    }
}

#[test]
fn exponential_test_reward() {
    let exp = exponential();
    for _ in 0..1000 {
        let r = exp.reward(2);
        assert!(r >= 0);
    }
}

#[test]
fn exponential_test_std() {
    close(exponential().std_dev(1), 1.6666667)
}

#[test]
fn exponential_test_stds() {
    let stds = exponential().stds();
    let lambdas = vec![6.1, 0.6, 5.4, 9.1, 3.5];
    for (s, l) in stds.iter().zip(lambdas) {
        close(*s, 1.0 / l);
    }
}

#[test]
fn exponential_rejects_bad_parameters() {
    let neg: Vec<i64> = vec![fp(6.1), fp(0.6), fp(-5.4), fp(9.1), fp(3.5)];
    assert!(ExponentialBandit::new(neg).is_none());
    assert!(ExponentialBandit::new(Vec::new()).is_none());
}
