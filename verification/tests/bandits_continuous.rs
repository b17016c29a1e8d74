use ratel::Bandit;
use ratel::GammaBandit;
use ratel::GaussianBandit;
use ratel::LogNormalBandit;

/// A real value as a fixed-point count of billionths.
fn fp(x: f64) -> i64 {
    (x * 1e9).round() as i64
}

/// The fixed-point value read back as a real number.
fn as_float(v: i64) -> f64 {
    (v as f64) / 1e9
}

fn close(got: i64, want: f64) {
    assert!(
        (as_float(got) - want).abs() < 1e-6,
        "got {} want {}",
        as_float(got),
        want
    );
}

fn gaussian() -> GaussianBandit {
    let mean_vec: Vec<i64> = vec![fp(-1.83), fp(-0.82), fp(-1.35), fp(2.61), fp(0.39)];
    let std_vec: Vec<i64> = vec![fp(2.3), fp(1.25), fp(0.78), fp(1.80), fp(1.55)];
    GaussianBandit::new(mean_vec, std_vec).unwrap()
}

#[test]
fn gaussian_test_arms() {
    assert_eq!(gaussian().arms(), 5)
}

#[test]
fn gaussian_test_best_arm() {
    assert_eq!(gaussian().best_arm(), 3)
}

#[test]
fn gaussian_test_max_reward() {
    assert_eq!(gaussian().max_reward(), fp(2.61))
}

#[test]
fn gaussian_test_mean() {
    assert_eq!(gaussian().mean(1), fp(-0.82))
}

#[test]
fn gaussian_test_means() {
    assert_eq!(
        gaussian().means(),
        vec![fp(-1.83), fp(-0.82), fp(-1.35), fp(2.61), fp(0.39)]
    )
}

#[test]
fn gaussian_test_reward() {
    let gauss = gaussian();
    for _ in 0..1000 {
        gauss.reward(2);
    }
}

#[test]
fn gaussian_test_std() {
    assert_eq!(gaussian().std_dev(1), fp(1.25))
}

#[test]
fn gaussian_test_stds() {
    assert_eq!(
        gaussian().stds(),
        vec![fp(2.3), fp(1.25), fp(0.78), fp(1.80), fp(1.55)]
    )
}

#[test]
fn gaussian_rejects_bad_parameters() {
    let means: Vec<i64> = vec![fp(-1.83), fp(-0.82), fp(-1.35), fp(2.61), fp(0.39)];
    let short = vec![fp(2.3), fp(1.25), fp(0.78), fp(1.80)];
    assert!(GaussianBandit::new(means.clone(), short).is_none());
    let neg = vec![fp(2.3), fp(1.25), fp(0.78), fp(1.80), fp(-1.55)];
    assert!(GaussianBandit::new(means, neg).is_none());
}

fn gamma() -> GammaBandit {
    let alphas: Vec<i64> = vec![fp(1.3), fp(9.5), fp(1.6), fp(1.9), fp(8.9)];
    let thetas: Vec<i64> = vec![fp(8.0), fp(0.7), fp(3.3), fp(0.5), fp(5.9)];
    GammaBandit::new(alphas, thetas).unwrap()
}

#[test]
fn gamma_test_arms() {
    assert_eq!(gamma().arms(), 5)
}

#[test]
fn gamma_test_best_arm() {
    assert_eq!(gamma().best_arm(), 4)
}

#[test]
fn gamma_test_max_reward() {
    close(gamma().max_reward(), 52.51)
}

#[test]
fn gamma_test_mean() {
    close(gamma().mean(1), 6.65)
}

#[test]
fn gamma_test_means() {
    let means = gamma().means();
    let expected = vec![10.4, 6.65, 5.28, 0.95, 52.51];
    for (m, e) in means.iter().zip(expected) {
        close(*m, e);
    }
}

#[test]
fn gamma_test_reward() {
    let g = gamma();
    for _ in 0..1000 {
        g.reward(2);
    }
}

#[test]
fn gamma_test_std() {
    close(gamma().std_dev(1), 2.1575449)
}

#[test]
fn gamma_test_stds() {
    let stds = gamma().stds();
    let expected = vec![9.1214034, 2.1575449, 4.1742065, 0.68920243, 17.60139199];
    for (s, e) in stds.iter().zip(expected) {
        close(*s, e);
    }
}

#[test]
fn gamma_rejects_bad_parameters() {
    let alphas: Vec<i64> = vec![fp(1.3), fp(9.5), fp(1.6), fp(1.9), fp(8.9)];
    let thetas: Vec<i64> = vec![fp(8.0), fp(0.7), fp(3.3), fp(0.5), fp(5.9)];
    let neg_alpha = vec![fp(1.3), fp(9.5), fp(1.6), fp(-1.9), fp(8.9)];
    assert!(GammaBandit::new(neg_alpha, thetas.clone()).is_none());
    let neg_theta = vec![fp(8.0), fp(-0.7), fp(3.3), fp(0.5), fp(5.9)];
    assert!(GammaBandit::new(alphas.clone(), neg_theta).is_none());
    let short = vec![fp(8.0), fp(0.7), fp(3.3), fp(0.5)];
    assert!(GammaBandit::new(alphas, short).is_none());
}

#[test]
fn gamma_small_shape_rewards_stay_nonnegative() {
    let alphas: Vec<i64> = vec![fp(0.5)];
    let thetas: Vec<i64> = vec![fp(2.0)];
    let g = GammaBandit::new(alphas, thetas).unwrap();
    for _ in 0..200 {
        let r = g.reward(0);
        assert!(r >= 0);
    }
}

fn log_normal() -> LogNormalBandit {
    let mus: Vec<i64> = vec![fp(-1.83), fp(-0.82), fp(-1.35), fp(2.61), fp(0.39)];
    let sigmas: Vec<i64> = vec![fp(2.3), fp(1.25), fp(0.78), fp(1.80), fp(1.55)];
    LogNormalBandit::new(mus, sigmas).unwrap()
}

#[test]
fn log_normal_test_arms() {
    assert_eq!(log_normal().arms(), 5)
}

#[test]
fn log_normal_test_best_arm() {
    assert_eq!(log_normal().best_arm(), 3)
}

#[test]
fn log_normal_test_max_reward() {
    close(log_normal().max_reward(), 68.71723217)
}

#[test]
fn log_normal_test_mean() {
    close(log_normal().mean(1), 0.96199118)
}

#[test]
fn log_normal_test_means() {
    let means = log_normal().means();
    let expected = vec![2.25917567, 0.96199118, 0.35141058, 68.71723217, 4.90988245];
    for (m, e) in means.iter().zip(expected) {
        close(*m, e);
    }
}

#[test]
fn log_normal_test_reward() {
    let ln = log_normal();
    for _ in 0..1000 {
        let r = ln.reward(2);
        assert!(r >= 0);
    }
}

#[test]
fn log_normal_test_std() {
    close(log_normal().std_dev(1), 1.86803062)
}

#[test]
fn log_normal_test_stds() {
    let stds = log_normal().stds();
    let expected = vec![
        31.7366684,
        1.86803062,
        0.321591383,
        340.366945,
        15.5657745,
    ];
    for (s, e) in stds.iter().zip(expected) {
        close(*s, e);
    }
}

#[test]
fn log_normal_rejects_bad_parameters() {
    let mus: Vec<i64> = vec![fp(-1.83), fp(-0.82), fp(-1.35), fp(2.61), fp(0.39)];
    let short = vec![fp(2.3), fp(1.25), fp(0.78), fp(1.80)];
    assert!(LogNormalBandit::new(mus.clone(), short).is_none());
    let neg = vec![fp(2.3), fp(1.25), fp(0.78), fp(-1.80), fp(1.55)];
    assert!(LogNormalBandit::new(mus, neg).is_none());
}
