use ratel::ArgBounds;

/// A real value as a fixed-point count of billionths.
fn fp(x: f64) -> i64 {
    (x * 1e9).round() as i64
}

fn int_vec() -> Vec<i32> {
    vec![87, 26, 79, 82, 92]
}

fn float_vec() -> Vec<i64> {
    vec![fp(0.51), fp(0.8), fp(0.93), fp(0.68), fp(0.58)]
}

#[test]
fn test_arg_max() {
    assert_eq!(int_vec().arg_max(), 4)
}

#[test]
fn test_float_arg_max() {
    assert_eq!(float_vec().arg_max(), 2)
}

#[test]
fn test_arg_min() {
    assert_eq!(int_vec().arg_min(), 1)
}

#[test]
fn test_float_arg_min() {
    assert_eq!(float_vec().arg_min(), 0)
}

#[test]
fn test_val_max() {
    assert_eq!(int_vec().val_max(), 92)
}

#[test]
fn test_float_val_max() {
    assert_eq!(float_vec().val_max(), fp(0.93))
}

#[test]
fn test_val_min() {
    assert_eq!(int_vec().val_min(), 26)
}

#[test]
fn test_float_val_min() {
    assert_eq!(float_vec().val_min(), fp(0.51))
}

#[test]
fn arg_max_breaks_ties_to_first() {
    let v: Vec<i64> = vec![3, 7, 7, 1];
    assert_eq!(v.arg_max(), 1);
    let w: Vec<i64> = vec![5, 5, 5];
    assert_eq!(w.arg_max(), 0);
    assert_eq!(w.arg_min(), 0);
}
