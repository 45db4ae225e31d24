use nilpotent::{inv, mul, Nilpot, Nilpot3, Nilpot4, Nilpot5};

#[test]
fn convolution_example() {
    let a = [4.0f64, 0.2, 0.5];
    let b = [5.0f64, 0.4, 0.7];
    let mut r = [0.0f64; 3];
    mul(&a, &b, &mut r);
    let want = [20.0, 2.6, 5.38];
    for k in 0..3 {
        assert!((r[k] - want[k]).abs() < 1e-9);
    }
}

#[test]
fn convolution_on_integers_is_exact() {
    let a = [1i64, 2, 3, 4];
    let b = [5i64, 6, 7, 8];
    let mut r = [0i64; 4];
    mul(&a, &b, &mut r);
    assert_eq!(r, [5, 16, 34, 60]);
}

#[test]
fn convolution_ignores_old_contents_of_result() {
    let a = [2i64, 1];
    let b = [3i64, 4];
    let mut r = [99i64, -7];
    mul(&a, &b, &mut r);
    assert_eq!(r, [6, 11]);
}

#[test]
fn inverse_example() {
    let a = [4.0f64, 0.2, 0.5];
    let mut r = [0.0f64; 3];
    inv(&a, &mut r);
    assert_eq!(r[0], 0.25);
    let mut id = [0.0f64; 3];
    mul(&a, &r, &mut id);
    let want = [1.0, 0.0, 0.0];
    for k in 0..3 {
        assert!((id[k] - want[k]).abs() < 1e-9);
    }
}

#[test]
fn inverse_of_unit_leading_integer_series() {
    // 1 / (1 - x) = 1 + x + x^2 + x^3
    let a = [1i64, -1, 0, 0];
    let mut r = [0i64; 4];
    inv(&a, &mut r);
    assert_eq!(r, [1, 1, 1, 1]);
}

#[test]
fn inverse_times_series_is_one_for_every_length() {
    let coeffs = [2.0f64, -0.5, 1.25, 3.0, 0.75];
    for n in 1..=5 {
        let a = &coeffs[..n];
        let mut r = vec![0.0f64; n];
        inv(a, &mut r);
        let mut id = vec![0.0f64; n];
        mul(a, &r, &mut id);
        for k in 0..n {
            let want = if k == 0 { 1.0 } else { 0.0 };
            assert!((id[k] - want).abs() < 1e-9);
        }
    }
}

#[test]
fn single_component_is_plain_scalar() {
    let a = [8.0f64];
    let mut r = [0.0f64];
    inv(&a, &mut r);
    assert_eq!(r, [0.125]);
    let mut p = [0.0f64];
    mul(&a, &[3.0], &mut p);
    assert_eq!(p, [24.0]);
}

#[test]
fn product_of_numbers_matches_convolution() {
    let x = Nilpot3::new([4.0f64, 0.2, 0.5]);
    let y = Nilpot3::new([5.0f64, 0.4, 0.7]);
    let z = x.mul(&y).components();
    assert_eq!(z[0], 20.0);
    assert!((z[1] - 2.6).abs() < 1e-9);
    assert!((z[2] - 5.38).abs() < 1e-9);
}

#[test]
fn quotient_times_divisor_gives_back_dividend() {
    let x = Nilpot4::new([1i64, 2, 3, 4]);
    let y = Nilpot4::new([1i64, 1, 0, 0]);
    let q = x.div(&y);
    assert_eq!(q.components(), [1, 1, 2, 2]);
    assert!(q.mul(&y) == x);
}

#[test]
fn one_is_identity_of_product() {
    let x = Nilpot::<f64, 3>::new([3.5, -1.0, 2.25]);
    let one = Nilpot::<f64, 3>::one();
    assert_eq!(one.components(), [1.0, 0.0, 0.0]);
    assert!(x.mul(&one) == x);
    assert!(one.mul(&x) == x);
}

#[test]
fn product_then_quotient_gives_back_number() {
    let x = Nilpot4::new([2i64, 7, 1, -4]);
    let y = Nilpot4::new([1i64, 3, -2, 5]);
    assert!(x.mul(&y).div(&y) == x);
    let xf = Nilpot3::new([0.5f64, -1.5, 2.0]);
    let yf = Nilpot3::new([4.0f64, 0.2, 0.5]);
    let back = xf.mul(&yf).div(&yf).components();
    let want = xf.components();
    for k in 0..3 {
        assert!((back[k] - want[k]).abs() < 1e-12);
    }
}

#[test]
fn one_has_a_single_leading_one() {
    assert_eq!(Nilpot5::<i64>::one().components(), [1, 0, 0, 0, 0]);
    assert_eq!(Nilpot::<i64, 1>::one().components(), [1]);
}

#[test]
fn number_times_inverse_is_one() {
    let y = Nilpot4::new([1i64, 3, -2, 5]);
    let q = Nilpot4::<i64>::one().div(&y);
    assert!(y.mul(&q) == Nilpot4::one());
    assert!(q.mul(&y) == Nilpot4::one());
}
