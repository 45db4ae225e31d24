use nilpotent::{Nilpot, Nilpot2, Nilpot4, Nilpot5};

#[test]
fn zero_is_additive_identity() {
    let x = Nilpot4::new([1.5f64, -2.0, 0.25, 7.0]);
    let z = Nilpot4::<f64>::zero();
    assert_eq!(z.components(), [0.0; 4]);
    assert!(x.add(&z) == x);
    assert!(x.sub(&x) == z);
    assert!(z.is_zero());
    assert!(!x.is_zero());
    assert!(!Nilpot2::new([0.0f64, 1e-300]).is_zero());
}

#[test]
fn sum_and_difference_are_componentwise() {
    let x = Nilpot::<i64, 3>::new([1, 2, 3]);
    let y = Nilpot::<i64, 3>::new([10, -20, 30]);
    assert_eq!(x.add(&y).components(), [11, -18, 33]);
    assert_eq!(x.sub(&y).components(), [-9, 22, -27]);
}

#[test]
fn negation_is_componentwise() {
    let x = Nilpot5::new([1.0f64, -2.0, 0.0, 3.5, -0.25]);
    let n = x.neg().components();
    let c = x.components();
    for k in 0..5 {
        assert_eq!(n[k], -c[k]);
    }
}

#[test]
fn remainder_is_componentwise() {
    let x = Nilpot4::new([7i64, -7, 9, 10]);
    let y = Nilpot4::new([3i64, 3, 9, 4]);
    assert_eq!(x.rem(&y).components(), [1, -1, 0, 2]);
    let xf = Nilpot2::new([7.5f64, 5.0]);
    let yf = Nilpot2::new([2.0f64, 3.0]);
    assert_eq!(xf.rem(&yf).components(), [1.5, 2.0]);
}

#[test]
fn equality_is_componentwise() {
    let x = Nilpot4::new([1i64, 2, 3, 4]);
    assert!(x == Nilpot4::new([1, 2, 3, 4]));
    assert!(x != Nilpot4::new([1, 2, 3, 5]));
    assert!(x != Nilpot4::new([0, 2, 3, 4]));
}

#[test]
fn less_is_not_transitive() {
    let x = Nilpot2::new([0.0f64, 2.0]);
    let y = Nilpot2::new([1.0f64, 0.0]);
    let z = Nilpot2::new([0.0f64, 1.0]);
    assert!(x.lt(&y));
    assert!(y.lt(&z));
    assert!(!x.lt(&z));
}

#[test]
fn less_holds_both_ways_and_not_for_equal() {
    let x = Nilpot2::new([0i64, 2]);
    let y = Nilpot2::new([1i64, 0]);
    assert!(x.lt(&y));
    assert!(y.lt(&x));
    assert!(!x.lt(&x));
}

#[test]
fn sign_operations_are_componentwise() {
    let x = Nilpot4::new([-3i64, 0, 5, -1]);
    assert_eq!(x.abs().components(), [3, 0, 5, 1]);
    assert_eq!(x.signum().components(), [-1, 0, 1, -1]);
    let y = Nilpot4::new([1i64, 0, 7, -4]);
    assert_eq!(x.abs_sub(&y).components(), [0, 0, 0, 3]);
}

#[test]
fn sign_follows_leading_component() {
    let p = Nilpot5::new([0.5f64, -100.0, -100.0, -100.0, -100.0]);
    assert!(p.is_positive());
    assert!(!p.is_negative());
    let n = Nilpot5::new([-0.5f64, 100.0, 100.0, 100.0, 100.0]);
    assert!(n.is_negative());
    assert!(!n.is_positive());
    let z = Nilpot5::new([0.0f64, 1.0, 1.0, 1.0, 1.0]);
    assert!(!z.is_positive());
    assert!(!z.is_negative());
}
