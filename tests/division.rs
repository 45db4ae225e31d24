use nilpotent::{Nilpot2, Nilpot3, Nilpot4, Nilpot5};

#[test]
fn nilpot2_test_div() {
    let a = Nilpot2([1.0, 0.0]);
    let b = Nilpot2([3.2, 23.1]);
    let c = a.mul(&b).div(&b);
    assert!(c == Nilpot2([1.0, 0.0]));
}

#[test]
fn nilpot3_test_div() {
    let a = Nilpot3([1.0, 0.0, 0.0]);
    let b = Nilpot3([3.2, 23.1, 22.0]);
    let c = a.mul(&b).div(&b);
    assert!(c == Nilpot3([1.0, 0.0, 0.0]));
}

#[test]
fn nilpot4_test_div() {
    let a = Nilpot4([1.0, 0.0, 0.0, 0.0]);
    let b = Nilpot4([3.2, 23.1, 22.0, 15.0]);
    let c = a.mul(&b).div(&b);
    assert!(c == Nilpot4([1.0, 0.0, 0.0, 0.0]));
}

#[test]
fn nilpot5_test_div() {
    let a = Nilpot5([1.0, 0.0, 0.0, 0.0, 0.0]);
    let b = Nilpot5([3.2, 23.1, 22.0, 15.0, -12.0]);
    let c = a.mul(&b).div(&b);
    println!("{:?}", c);
    assert!(c
        .sub(&Nilpot5([1.0, 0.0, 0.0, 0.0, 0.0]))
        .abs()
        .lt(&Nilpot5([0.001, 0.001, 0.001, 0.001, 0.001])));
}
