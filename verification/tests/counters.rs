use ratel::AggregateCounter;
use ratel::ConstantStepper;
use ratel::Counter;
use ratel::HarmonicStepper;
use ratel::RecordCounter;
use ratel::Stepper;
use ratel::SCALE;

/// A real value as a fixed-point count of billionths.
fn fp(x: f64) -> i64 {
    (x * 1e9).round() as i64
}

#[test]
fn test_record_counter() {
    let nums_vec: Vec<i32> = vec![45, 5, 52, 93, 51, 90];
    let mut ac: RecordCounter<i32> = RecordCounter::new();
    for i in 0..=5 {
        ac.update(nums_vec[i])
    }
    assert_eq!(ac.counter(), 6);
    assert_eq!(ac.record()[2], 52);
    ac.reset();

    assert_eq!(ac.counter(), 0);
    for _ in 1..=7 {
        ac.update(3)
    }
    assert_eq!(ac.counter(), 7);
}

#[test]
fn test_record_int_counter() {
    let dec_vec: Vec<u32> = vec![79, 42, 11, 29, 76];
    let mut ac: RecordCounter<u32> = RecordCounter::new();
    for i in 0..=4 {
        ac.update(dec_vec[i])
    }
    assert_eq!(ac.counter(), 5);
    assert_eq!(ac.record()[2], 11);
    ac.reset();
    assert_eq!(ac.counter(), 0);
}

#[test]
fn test_record_float_counter() {
    let float_vec: Vec<i64> = vec![fp(9.62), fp(4.0), fp(4.6), fp(7.73), fp(7.59)];
    let mut ac: RecordCounter<i64> = RecordCounter::new();
    for i in 0..=4 {
        ac.update(float_vec[i])
    }
    assert_eq!(ac.counter(), 5);
    assert_eq!(ac.record()[2], fp(4.6));
    ac.reset();
    assert_eq!(ac.counter(), 0);
}

#[test]
fn test_aggregate_counter() {
    let nums_vec: Vec<i64> = vec![fp(45.0), fp(5.0), fp(52.0), fp(93.0), fp(51.0), fp(90.0)];
    let mut ac: AggregateCounter = AggregateCounter::new();
    for i in 0..=5 {
        ac.update(nums_vec[i])
    }
    assert_eq!(ac.counter(), 6);
    assert_eq!(ac.total(), fp(336.0));
    assert_eq!(ac.average(), fp(56.0));
    ac.reset();

    assert_eq!(ac.counter(), 0);
    for _ in 1..=7 {
        ac.update(fp(3.0))
    }
    assert_eq!(ac.counter(), 7);
    assert_eq!(ac.total(), fp(21.0));
    assert_eq!(ac.average(), fp(3.0));
}

#[test]
fn test_aggregate_int_counter() {
    let dec_vec: Vec<i64> = vec![fp(79.0), fp(42.0), fp(11.0), fp(29.0), fp(76.0)];
    let mut ac: AggregateCounter = AggregateCounter::new();
    for i in 0..=4 {
        ac.update(dec_vec[i])
    }
    assert_eq!(ac.counter(), 5);
    assert_eq!(ac.total(), fp(237.0));
    assert_eq!(ac.average(), fp(47.4));
    ac.reset();
    assert_eq!(ac.counter(), 0);
}

#[test]
fn test_aggregate_float_counter() {
    let float_vec: Vec<i64> = vec![fp(9.62), fp(4.0), fp(4.6), fp(7.73), fp(7.59)];
    let mut ac: AggregateCounter = AggregateCounter::new();
    for i in 0..=4 {
        ac.update(float_vec[i])
    }
    assert_eq!(ac.counter(), 5);
    assert_eq!(ac.total(), fp(33.54));
    assert_eq!(ac.average(), fp(6.708));
    ac.reset();
    assert_eq!(ac.counter(), 0);
}

#[test]
fn harmonic_stepper_yields_reciprocal_steps() {
    let mut stepper = HarmonicStepper::new(1, 3);
    assert_eq!(stepper.arms(), 3);
    assert_eq!(stepper.step(0), SCALE);
    assert_eq!(stepper.step(0), SCALE / 2);
    assert_eq!(stepper.step(0), SCALE / 3);
    assert_eq!(stepper.step(1), SCALE);
    stepper.reset();
    assert_eq!(stepper.step(0), SCALE);
    assert_eq!(stepper.step(0), SCALE / 2);
}

#[test]
fn constant_stepper_keeps_its_step_size() {
    let mut stepper = ConstantStepper::new(SCALE / 4);
    assert_eq!(stepper.step(0), SCALE / 4);
    assert_eq!(stepper.step(5), SCALE / 4);
    stepper.reset();
    assert_eq!(stepper.step(0), SCALE / 4);
    stepper.update(SCALE / 2);
    assert_eq!(stepper.step(0), SCALE / 2);
}
