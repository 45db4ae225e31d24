//! The capabilities asked of a coefficient type, and their meaning in specs.
use vstd::prelude::*;
use vstd::std_specs::cmp::{PartialEqSpec, PartialOrdSpec};
use vstd::std_specs::convert::FromSpec;
use core::ops::Neg;
use vstd::std_specs::ops::{AddSpec, DivSpec, MulSpec, NegSpec, RemSpec, SubSpec};

verus! {

/// A coefficient type: a copyable number with the field operations, an
/// order, and the constants zero and one (taken as the images of `0i8` and
/// `1i8`).
pub trait Scalar:
    Copy +
    core::ops::Add<Output = Self> +
    core::ops::Sub<Output = Self> +
    core::ops::Mul<Output = Self> +
    core::ops::Div<Output = Self> +
    core::ops::Rem<Output = Self> +
    core::ops::Neg<Output = Self> +
    core::cmp::PartialOrd +
    core::convert::From<i8> {
}

impl<T> Scalar for T where
    T: Copy +
    core::ops::Add<Output = T> +
    core::ops::Sub<Output = T> +
    core::ops::Mul<Output = T> +
    core::ops::Div<Output = T> +
    core::ops::Rem<Output = T> +
    core::ops::Neg<Output = T> +
    core::cmp::PartialOrd +
    core::convert::From<i8> {
}

/// The additive identity of `T`.
pub open spec fn zero<T: Scalar>() -> T {
    T::from_spec(0i8)
}

/// The multiplicative identity of `T`.
pub open spec fn one<T: Scalar>() -> T {
    T::from_spec(1i8)
}

/// `T`'s constants and ring operations compute what their specifications say.
pub open spec fn ring_exact<T: Scalar>() -> bool {
    &&& <T as FromSpec<i8>>::obeys_from_spec()
    &&& T::obeys_add_spec()
    &&& T::obeys_sub_spec()
    &&& T::obeys_mul_spec()
}

/// As `ring_exact`, with division as well.
pub open spec fn field_exact<T: Scalar>() -> bool {
    ring_exact::<T>() && T::obeys_div_spec()
}

/// Addition, subtraction, multiplication and negation of `T` are defined
/// everywhere.
pub open spec fn ring_total<T: Scalar>() -> bool {
    &&& forall|x: T| #[trigger] x.neg_req()
    &&& forall|x: T, y: T| #[trigger] x.add_req(y)
    &&& forall|x: T, y: T| #[trigger] x.sub_req(y)
    &&& forall|x: T, y: T| #[trigger] x.mul_req(y)
}

/// Minus one can be computed in `T`.
pub open spec fn minus_one_defined<T: Scalar>() -> bool {
    ||| ring_total::<T>()
    ||| <T as FromSpec<i8>>::obeys_from_spec() && one::<T>().neg_req()
}

/// Division of anything by `d` is defined.
pub open spec fn divisible_by<T: Scalar>(d: T) -> bool {
    forall|x: T| #[trigger] x.div_req(d)
}

} // verus!

verus! {

/// `x < y` in `T`'s order.
pub open spec fn less<T: Scalar>(x: T, y: T) -> bool {
    x.partial_cmp_spec(&y) == Some(core::cmp::Ordering::Less)
}

/// `T`'s comparisons, negation, subtraction and constants compute what
/// their specifications say.
pub open spec fn order_exact<T: Scalar>() -> bool {
    &&& <T as FromSpec<i8>>::obeys_from_spec()
    &&& T::obeys_partial_cmp_spec()
    &&& T::obeys_neg_spec()
    &&& T::obeys_sub_spec()
}

/// The absolute value: `-x` below zero, else `x`.
pub open spec fn abs_spec<T: Scalar>(x: T) -> T {
    if less(x, zero::<T>()) {
        x.neg_spec()
    } else {
        x
    }
}

/// The sign: one above zero, minus one below zero, else zero.
pub open spec fn signum_spec<T: Scalar>(x: T) -> T {
    if less(zero::<T>(), x) {
        one::<T>()
    } else if less(x, zero::<T>()) {
        one::<T>().neg_spec()
    } else {
        zero::<T>()
    }
}

/// The positive difference `max(x - y, 0)`: zero unless `y < x`.
pub open spec fn abs_sub_spec<T: Scalar>(x: T, y: T) -> T {
    if less(y, x) {
        x.sub_spec(y)
    } else {
        zero::<T>()
    }
}

pub fn abs_of<T: Scalar>(x: T) -> (r: T)
    requires
        x.neg_req(),
    ensures
        order_exact::<T>() ==> r == abs_spec(x),
{
    if x < T::from(0i8) {
        x.neg()
    } else {
        x
    }
}

pub fn signum_of<T: Scalar>(x: T) -> (r: T)
    requires
        minus_one_defined::<T>(),
    ensures
        order_exact::<T>() ==> r == signum_spec(x),
{
    let z: T = T::from(0i8);
    if z < x {
        T::from(1i8)
    } else if x < z {
        T::from(1i8).neg()
    } else {
        z
    }
}

pub fn abs_sub_of<T: Scalar>(x: T, y: T) -> (r: T)
    requires
        x.sub_req(y),
    ensures
        order_exact::<T>() ==> r == abs_sub_spec(x, y),
{
    if y < x {
        x - y
    } else {
        T::from(0i8)
    }
}

} // verus!

verus! {

/// The specifications of `T`'s operations satisfy the field axioms, and
/// `T`'s equality test is equality.
#[verifier::opaque]
pub open spec fn field_laws<T: Scalar>() -> bool {
    &&& forall|x: T, y: T, z: T| #[trigger] x.add_spec(y).add_spec(z) == x.add_spec(y.add_spec(z))
    &&& forall|x: T, y: T| #[trigger] x.add_spec(y) == y.add_spec(x)
    &&& forall|x: T| #[trigger] x.add_spec(zero::<T>()) == x
    &&& forall|x: T| #[trigger] x.add_spec(x.neg_spec()) == zero::<T>()
    &&& forall|x: T, y: T| #[trigger] x.sub_spec(y) == x.add_spec(y.neg_spec())
    &&& forall|x: T, y: T, z: T| #[trigger] x.mul_spec(y).mul_spec(z) == x.mul_spec(y.mul_spec(z))
    &&& forall|x: T, y: T| #[trigger] x.mul_spec(y) == y.mul_spec(x)
    &&& forall|x: T| #[trigger] x.mul_spec(one::<T>()) == x
    &&& forall|x: T, y: T, z: T| #[trigger] x.mul_spec(y.add_spec(z)) == x.mul_spec(y).add_spec(x.mul_spec(z))
    &&& forall|x: T, y: T| y != zero::<T>() ==> #[trigger] y.mul_spec(x.div_spec(y)) == x
    &&& one::<T>() != zero::<T>()
    &&& forall|x: T, y: T| #[trigger] x.eq_spec(&y) <==> (x == y)
}

} // verus!
