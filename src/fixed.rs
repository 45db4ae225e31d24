//! Nilpotent numbers of two to five components, each a thin front for
//! `Nilpot` at its size.
use vstd::prelude::*;
use vstd::std_specs::cmp::{PartialEqSpec, PartialOrdSpec};
use vstd::std_specs::convert::FromSpec;
use vstd::std_specs::ops::{AddSpec, NegSpec, RemSpec, SubSpec};
use crate::nilpot::{
    Nilpot, abs_each, abs_sub_each, add_each, all_equal, any_less, neg_each, rem_each,
    signum_each, sub_each,
};
use crate::scalar::{Scalar, field_exact, less, minus_one_defined, order_exact, ring_exact, zero};
use crate::series::{inverse, null, product, product_defined, quotient_defined, unit};

verus! {

/// A nilpotent number with two components, leading (order zero) first.
#[derive(Clone, Copy, Debug)]
pub struct Nilpot2<T>(pub [T; 2]);

impl<T> View for Nilpot2<T> {
    type V = Seq<T>;

    open spec fn view(&self) -> Seq<T> {
        self.0@
    }
}

impl<T: Scalar> Nilpot2<T> {
    /// The number with the given components.
    pub fn new(c: [T; 2]) -> (r: Self)
        ensures
            r@ == c@,
    {
        Nilpot2(c)
    }

    /// The components, leading first.
    pub fn components(&self) -> (r: [T; 2])
        ensures
            r@ == self@,
    {
        self.0
    }

    /// The additive identity: all components zero.
    pub fn zero() -> (r: Self)
        ensures
            r@.len() == 2,
            <T as FromSpec<i8>>::obeys_from_spec() ==> r@ == null::<T>(2),
    {
        Nilpot2(Nilpot::<T, 2>::zero().0)
    }

    /// The multiplicative identity: leading component one, the others zero.
    pub fn one() -> (r: Self)
        ensures
            r@.len() == 2,
            <T as FromSpec<i8>>::obeys_from_spec() ==> r@ == unit::<T>(2),
    {
        Nilpot2(Nilpot::<T, 2>::one().0)
    }

    /// Componentwise sum.
    pub fn add(&self, rhs: &Self) -> (r: Self)
        requires
            forall|k: int| 0 <= k < 2 ==> #[trigger] self@[k].add_req(rhs@[k]),
        ensures
            r@.len() == 2,
            T::obeys_add_spec() ==> r@ == add_each(self@, rhs@),
    {
        let x = Nilpot(self.0);
        let y = Nilpot(rhs.0);
        assert(x@ == self@ && y@ == rhs@);
        Nilpot2(x.add(&y).0)
    }

    /// Componentwise difference.
    pub fn sub(&self, rhs: &Self) -> (r: Self)
        requires
            forall|k: int| 0 <= k < 2 ==> #[trigger] self@[k].sub_req(rhs@[k]),
        ensures
            r@.len() == 2,
            T::obeys_sub_spec() ==> r@ == sub_each(self@, rhs@),
    {
        let x = Nilpot(self.0);
        let y = Nilpot(rhs.0);
        assert(x@ == self@ && y@ == rhs@);
        Nilpot2(x.sub(&y).0)
    }

    /// Componentwise remainder.
    pub fn rem(&self, rhs: &Self) -> (r: Self)
        requires
            forall|k: int| 0 <= k < 2 ==> #[trigger] self@[k].rem_req(rhs@[k]),
        ensures
            r@.len() == 2,
            T::obeys_rem_spec() ==> r@ == rem_each(self@, rhs@),
    {
        let x = Nilpot(self.0);
        let y = Nilpot(rhs.0);
        assert(x@ == self@ && y@ == rhs@);
        Nilpot2(x.rem(&y).0)
    }

    /// Componentwise negation.
    pub fn neg(&self) -> (r: Self)
        requires
            forall|k: int| 0 <= k < 2 ==> #[trigger] self@[k].neg_req(),
        ensures
            r@.len() == 2,
            T::obeys_neg_spec() ==> r@ == neg_each(self@),
    {
        let x = Nilpot(self.0);
        assert(x@ == self@);
        Nilpot2(x.neg().0)
    }

    /// Componentwise absolute value.
    pub fn abs(&self) -> (r: Self)
        requires
            forall|k: int| 0 <= k < 2 ==> #[trigger] self@[k].neg_req(),
        ensures
            r@.len() == 2,
            order_exact::<T>() ==> r@ == abs_each(self@),
    {
        let x = Nilpot(self.0);
        assert(x@ == self@);
        Nilpot2(x.abs().0)
    }

    /// Componentwise sign.
    pub fn signum(&self) -> (r: Self)
        requires
            minus_one_defined::<T>(),
        ensures
            r@.len() == 2,
            order_exact::<T>() ==> r@ == signum_each(self@),
    {
        let x = Nilpot(self.0);
        assert(x@ == self@);
        Nilpot2(x.signum().0)
    }

    /// Componentwise positive difference, `max(x[k] - y[k], 0)`.
    pub fn abs_sub(&self, rhs: &Self) -> (r: Self)
        requires
            forall|k: int| 0 <= k < 2 ==> #[trigger] self@[k].sub_req(rhs@[k]),
        ensures
            r@.len() == 2,
            order_exact::<T>() ==> r@ == abs_sub_each(self@, rhs@),
    {
        let x = Nilpot(self.0);
        let y = Nilpot(rhs.0);
        assert(x@ == self@ && y@ == rhs@);
        Nilpot2(x.abs_sub(&y).0)
    }

    /// The truncated product.
    pub fn mul(&self, rhs: &Self) -> (r: Self)
        requires
            product_defined(self@, rhs@),
        ensures
            r@.len() == 2,
            ring_exact::<T>() ==> r@ == product(self@, rhs@),
    {
        let x = Nilpot(self.0);
        let y = Nilpot(rhs.0);
        assert(x@ == self@ && y@ == rhs@);
        Nilpot2(x.mul(&y).0)
    }

    /// The truncated quotient: `self` times the inverse of `rhs`.
    pub fn div(&self, rhs: &Self) -> (r: Self)
        requires
            quotient_defined(self@, rhs@),
        ensures
            r@.len() == 2,
            field_exact::<T>() ==> r@ == product(self@, inverse(rhs@)),
    {
        let x = Nilpot(self.0);
        let y = Nilpot(rhs.0);
        assert(x@ == self@ && y@ == rhs@);
        Nilpot2(x.div(&y).0)
    }

    /// Whether the leading component is above zero.
    pub fn is_positive(&self) -> (r: bool)
        ensures
            order_exact::<T>() ==> (r <==> less(zero::<T>(), self@[0])),
    {
        Nilpot(self.0).is_positive()
    }

    /// Whether the leading component is below zero.
    pub fn is_negative(&self) -> (r: bool)
        ensures
            order_exact::<T>() ==> (r <==> less(self@[0], zero::<T>())),
    {
        Nilpot(self.0).is_negative()
    }

    /// Whether every component compares equal to zero.
    pub fn is_zero(&self) -> (r: bool)
        ensures
            T::obeys_eq_spec() && <T as FromSpec<i8>>::obeys_from_spec() ==>
                (r <==> all_equal(self@, null::<T>(2))),
    {
        Nilpot(self.0).is_zero()
    }

    /// Whether some component is less than the one of `rhs` at its place
    /// (not an order: see `Nilpot::lt`).
    pub fn lt(&self, rhs: &Self) -> (r: bool)
        ensures
            T::obeys_partial_cmp_spec() ==> (r <==> any_less(self@, rhs@)),
    {
        Nilpot(self.0).lt(&Nilpot(rhs.0))
    }
}

impl<T: Scalar> PartialEq for Nilpot2<T> {
    /// Whether all components compare equal.
    fn eq(&self, rhs: &Self) -> (r: bool) {
        Nilpot(self.0).eq(&Nilpot(rhs.0))
    }
}

impl<T: Scalar> vstd::std_specs::cmp::PartialEqSpecImpl for Nilpot2<T> {
    open spec fn obeys_eq_spec() -> bool {
        T::obeys_eq_spec()
    }

    open spec fn eq_spec(&self, rhs: &Self) -> bool {
        all_equal(self@, rhs@)
    }
}

/// A nilpotent number with three components, leading (order zero) first.
#[derive(Clone, Copy, Debug)]
pub struct Nilpot3<T>(pub [T; 3]);

impl<T> View for Nilpot3<T> {
    type V = Seq<T>;

    open spec fn view(&self) -> Seq<T> {
        self.0@
    }
}

impl<T: Scalar> Nilpot3<T> {
    /// The number with the given components.
    pub fn new(c: [T; 3]) -> (r: Self)
        ensures
            r@ == c@,
    {
        Nilpot3(c)
    }

    /// The components, leading first.
    pub fn components(&self) -> (r: [T; 3])
        ensures
            r@ == self@,
    {
        self.0
    }

    /// The additive identity: all components zero.
    pub fn zero() -> (r: Self)
        ensures
            r@.len() == 3,
            <T as FromSpec<i8>>::obeys_from_spec() ==> r@ == null::<T>(3),
    {
        Nilpot3(Nilpot::<T, 3>::zero().0)
    }

    /// The multiplicative identity: leading component one, the others zero.
    pub fn one() -> (r: Self)
        ensures
            r@.len() == 3,
            <T as FromSpec<i8>>::obeys_from_spec() ==> r@ == unit::<T>(3),
    {
        Nilpot3(Nilpot::<T, 3>::one().0)
    }

    /// Componentwise sum.
    pub fn add(&self, rhs: &Self) -> (r: Self)
        requires
            forall|k: int| 0 <= k < 3 ==> #[trigger] self@[k].add_req(rhs@[k]),
        ensures
            r@.len() == 3,
            T::obeys_add_spec() ==> r@ == add_each(self@, rhs@),
    {
        let x = Nilpot(self.0);
        let y = Nilpot(rhs.0);
        assert(x@ == self@ && y@ == rhs@);
        Nilpot3(x.add(&y).0)
    }

    /// Componentwise difference.
    pub fn sub(&self, rhs: &Self) -> (r: Self)
        requires
            forall|k: int| 0 <= k < 3 ==> #[trigger] self@[k].sub_req(rhs@[k]),
        ensures
            r@.len() == 3,
            T::obeys_sub_spec() ==> r@ == sub_each(self@, rhs@),
    {
        let x = Nilpot(self.0);
        let y = Nilpot(rhs.0);
        assert(x@ == self@ && y@ == rhs@);
        Nilpot3(x.sub(&y).0)
    }

    /// Componentwise remainder.
    pub fn rem(&self, rhs: &Self) -> (r: Self)
        requires
            forall|k: int| 0 <= k < 3 ==> #[trigger] self@[k].rem_req(rhs@[k]),
        ensures
            r@.len() == 3,
            T::obeys_rem_spec() ==> r@ == rem_each(self@, rhs@),
    {
        let x = Nilpot(self.0);
        let y = Nilpot(rhs.0);
        assert(x@ == self@ && y@ == rhs@);
        Nilpot3(x.rem(&y).0)
    }

    /// Componentwise negation.
    pub fn neg(&self) -> (r: Self)
        requires
            forall|k: int| 0 <= k < 3 ==> #[trigger] self@[k].neg_req(),
        ensures
            r@.len() == 3,
            T::obeys_neg_spec() ==> r@ == neg_each(self@),
    {
        let x = Nilpot(self.0);
        assert(x@ == self@);
        Nilpot3(x.neg().0)
    }

    /// Componentwise absolute value.
    pub fn abs(&self) -> (r: Self)
        requires
            forall|k: int| 0 <= k < 3 ==> #[trigger] self@[k].neg_req(),
        ensures
            r@.len() == 3,
            order_exact::<T>() ==> r@ == abs_each(self@),
    {
        let x = Nilpot(self.0);
        assert(x@ == self@);
        Nilpot3(x.abs().0)
    }

    /// Componentwise sign.
    pub fn signum(&self) -> (r: Self)
        requires
            minus_one_defined::<T>(),
        ensures
            r@.len() == 3,
            order_exact::<T>() ==> r@ == signum_each(self@),
    {
        let x = Nilpot(self.0);
        assert(x@ == self@);
        Nilpot3(x.signum().0)
    }

    /// Componentwise positive difference, `max(x[k] - y[k], 0)`.
    pub fn abs_sub(&self, rhs: &Self) -> (r: Self)
        requires
            forall|k: int| 0 <= k < 3 ==> #[trigger] self@[k].sub_req(rhs@[k]),
        ensures
            r@.len() == 3,
            order_exact::<T>() ==> r@ == abs_sub_each(self@, rhs@),
    {
        let x = Nilpot(self.0);
        let y = Nilpot(rhs.0);
        assert(x@ == self@ && y@ == rhs@);
        Nilpot3(x.abs_sub(&y).0)
    }

    /// The truncated product.
    pub fn mul(&self, rhs: &Self) -> (r: Self)
        requires
            product_defined(self@, rhs@),
        ensures
            r@.len() == 3,
            ring_exact::<T>() ==> r@ == product(self@, rhs@),
    {
        let x = Nilpot(self.0);
        let y = Nilpot(rhs.0);
        assert(x@ == self@ && y@ == rhs@);
        Nilpot3(x.mul(&y).0)
    }

    /// The truncated quotient: `self` times the inverse of `rhs`.
    pub fn div(&self, rhs: &Self) -> (r: Self)
        requires
            quotient_defined(self@, rhs@),
        ensures
            r@.len() == 3,
            field_exact::<T>() ==> r@ == product(self@, inverse(rhs@)),
    {
        let x = Nilpot(self.0);
        let y = Nilpot(rhs.0);
        assert(x@ == self@ && y@ == rhs@);
        Nilpot3(x.div(&y).0)
    }

    /// Whether the leading component is above zero.
    pub fn is_positive(&self) -> (r: bool)
        ensures
            order_exact::<T>() ==> (r <==> less(zero::<T>(), self@[0])),
    {
        Nilpot(self.0).is_positive()
    }

    /// Whether the leading component is below zero.
    pub fn is_negative(&self) -> (r: bool)
        ensures
            order_exact::<T>() ==> (r <==> less(self@[0], zero::<T>())),
    {
        Nilpot(self.0).is_negative()
    }

    /// Whether every component compares equal to zero.
    pub fn is_zero(&self) -> (r: bool)
        ensures
            T::obeys_eq_spec() && <T as FromSpec<i8>>::obeys_from_spec() ==>
                (r <==> all_equal(self@, null::<T>(3))),
    {
        Nilpot(self.0).is_zero()
    }

    /// Whether some component is less than the one of `rhs` at its place
    /// (not an order: see `Nilpot::lt`).
    pub fn lt(&self, rhs: &Self) -> (r: bool)
        ensures
            T::obeys_partial_cmp_spec() ==> (r <==> any_less(self@, rhs@)),
    {
        Nilpot(self.0).lt(&Nilpot(rhs.0))
    }
}

impl<T: Scalar> PartialEq for Nilpot3<T> {
    /// Whether all components compare equal.
    fn eq(&self, rhs: &Self) -> (r: bool) {
        Nilpot(self.0).eq(&Nilpot(rhs.0))
    }
}

impl<T: Scalar> vstd::std_specs::cmp::PartialEqSpecImpl for Nilpot3<T> {
    open spec fn obeys_eq_spec() -> bool {
        T::obeys_eq_spec()
    }

    open spec fn eq_spec(&self, rhs: &Self) -> bool {
        all_equal(self@, rhs@)
    }
}

/// A nilpotent number with four components, leading (order zero) first.
#[derive(Clone, Copy, Debug)]
pub struct Nilpot4<T>(pub [T; 4]);

impl<T> View for Nilpot4<T> {
    type V = Seq<T>;

    open spec fn view(&self) -> Seq<T> {
        self.0@
    }
}

impl<T: Scalar> Nilpot4<T> {
    /// The number with the given components.
    pub fn new(c: [T; 4]) -> (r: Self)
        ensures
            r@ == c@,
    {
        Nilpot4(c)
    }

    /// The components, leading first.
    pub fn components(&self) -> (r: [T; 4])
        ensures
            r@ == self@,
    {
        self.0
    }

    /// The additive identity: all components zero.
    pub fn zero() -> (r: Self)
        ensures
            r@.len() == 4,
            <T as FromSpec<i8>>::obeys_from_spec() ==> r@ == null::<T>(4),
    {
        Nilpot4(Nilpot::<T, 4>::zero().0)
    }

    /// The multiplicative identity: leading component one, the others zero.
    pub fn one() -> (r: Self)
        ensures
            r@.len() == 4,
            <T as FromSpec<i8>>::obeys_from_spec() ==> r@ == unit::<T>(4),
    {
        Nilpot4(Nilpot::<T, 4>::one().0)
    }

    /// Componentwise sum.
    pub fn add(&self, rhs: &Self) -> (r: Self)
        requires
            forall|k: int| 0 <= k < 4 ==> #[trigger] self@[k].add_req(rhs@[k]),
        ensures
            r@.len() == 4,
            T::obeys_add_spec() ==> r@ == add_each(self@, rhs@),
    {
        let x = Nilpot(self.0);
        let y = Nilpot(rhs.0);
        assert(x@ == self@ && y@ == rhs@);
        Nilpot4(x.add(&y).0)
    }

    /// Componentwise difference.
    pub fn sub(&self, rhs: &Self) -> (r: Self)
        requires
            forall|k: int| 0 <= k < 4 ==> #[trigger] self@[k].sub_req(rhs@[k]),
        ensures
            r@.len() == 4,
            T::obeys_sub_spec() ==> r@ == sub_each(self@, rhs@),
    {
        let x = Nilpot(self.0);
        let y = Nilpot(rhs.0);
        assert(x@ == self@ && y@ == rhs@);
        Nilpot4(x.sub(&y).0)
    }

    /// Componentwise remainder.
    pub fn rem(&self, rhs: &Self) -> (r: Self)
        requires
            forall|k: int| 0 <= k < 4 ==> #[trigger] self@[k].rem_req(rhs@[k]),
        ensures
            r@.len() == 4,
            T::obeys_rem_spec() ==> r@ == rem_each(self@, rhs@),
    {
        let x = Nilpot(self.0);
        let y = Nilpot(rhs.0);
        assert(x@ == self@ && y@ == rhs@);
        Nilpot4(x.rem(&y).0)
    }

    /// Componentwise negation.
    pub fn neg(&self) -> (r: Self)
        requires
            forall|k: int| 0 <= k < 4 ==> #[trigger] self@[k].neg_req(),
        ensures
            r@.len() == 4,
            T::obeys_neg_spec() ==> r@ == neg_each(self@),
    {
        let x = Nilpot(self.0);
        assert(x@ == self@);
        Nilpot4(x.neg().0)
    }

    /// Componentwise absolute value.
    pub fn abs(&self) -> (r: Self)
        requires
            forall|k: int| 0 <= k < 4 ==> #[trigger] self@[k].neg_req(),
        ensures
            r@.len() == 4,
            order_exact::<T>() ==> r@ == abs_each(self@),
    {
        let x = Nilpot(self.0);
        assert(x@ == self@);
        Nilpot4(x.abs().0)
    }

    /// Componentwise sign.
    pub fn signum(&self) -> (r: Self)
        requires
            minus_one_defined::<T>(),
        ensures
            r@.len() == 4,
            order_exact::<T>() ==> r@ == signum_each(self@),
    {
        let x = Nilpot(self.0);
        assert(x@ == self@);
        Nilpot4(x.signum().0)
    }

    /// Componentwise positive difference, `max(x[k] - y[k], 0)`.
    pub fn abs_sub(&self, rhs: &Self) -> (r: Self)
        requires
            forall|k: int| 0 <= k < 4 ==> #[trigger] self@[k].sub_req(rhs@[k]),
        ensures
            r@.len() == 4,
            order_exact::<T>() ==> r@ == abs_sub_each(self@, rhs@),
    {
        let x = Nilpot(self.0);
        let y = Nilpot(rhs.0);
        assert(x@ == self@ && y@ == rhs@);
        Nilpot4(x.abs_sub(&y).0)
    }

    /// The truncated product.
    pub fn mul(&self, rhs: &Self) -> (r: Self)
        requires
            product_defined(self@, rhs@),
        ensures
            r@.len() == 4,
            ring_exact::<T>() ==> r@ == product(self@, rhs@),
    {
        let x = Nilpot(self.0);
        let y = Nilpot(rhs.0);
        assert(x@ == self@ && y@ == rhs@);
        Nilpot4(x.mul(&y).0)
    }

    /// The truncated quotient: `self` times the inverse of `rhs`.
    pub fn div(&self, rhs: &Self) -> (r: Self)
        requires
            quotient_defined(self@, rhs@),
        ensures
            r@.len() == 4,
            field_exact::<T>() ==> r@ == product(self@, inverse(rhs@)),
    {
        let x = Nilpot(self.0);
        let y = Nilpot(rhs.0);
        assert(x@ == self@ && y@ == rhs@);
        Nilpot4(x.div(&y).0)
    }

    /// Whether the leading component is above zero.
    pub fn is_positive(&self) -> (r: bool)
        ensures
            order_exact::<T>() ==> (r <==> less(zero::<T>(), self@[0])),
    {
        Nilpot(self.0).is_positive()
    }

    /// Whether the leading component is below zero.
    pub fn is_negative(&self) -> (r: bool)
        ensures
            order_exact::<T>() ==> (r <==> less(self@[0], zero::<T>())),
    {
        Nilpot(self.0).is_negative()
    }

    /// Whether every component compares equal to zero.
    pub fn is_zero(&self) -> (r: bool)
        ensures
            T::obeys_eq_spec() && <T as FromSpec<i8>>::obeys_from_spec() ==>
                (r <==> all_equal(self@, null::<T>(4))),
    {
        Nilpot(self.0).is_zero()
    }

    /// Whether some component is less than the one of `rhs` at its place
    /// (not an order: see `Nilpot::lt`).
    pub fn lt(&self, rhs: &Self) -> (r: bool)
        ensures
            T::obeys_partial_cmp_spec() ==> (r <==> any_less(self@, rhs@)),
    {
        Nilpot(self.0).lt(&Nilpot(rhs.0))
    }
}

impl<T: Scalar> PartialEq for Nilpot4<T> {
    /// Whether all components compare equal.
    fn eq(&self, rhs: &Self) -> (r: bool) {
        Nilpot(self.0).eq(&Nilpot(rhs.0))
    }
}

impl<T: Scalar> vstd::std_specs::cmp::PartialEqSpecImpl for Nilpot4<T> {
    open spec fn obeys_eq_spec() -> bool {
        T::obeys_eq_spec()
    }

    open spec fn eq_spec(&self, rhs: &Self) -> bool {
        all_equal(self@, rhs@)
    }
}

/// A nilpotent number with five components, leading (order zero) first.
#[derive(Clone, Copy, Debug)]
pub struct Nilpot5<T>(pub [T; 5]);

impl<T> View for Nilpot5<T> {
    type V = Seq<T>;

    open spec fn view(&self) -> Seq<T> {
        self.0@
    }
}

impl<T: Scalar> Nilpot5<T> {
    /// The number with the given components.
    pub fn new(c: [T; 5]) -> (r: Self)
        ensures
            r@ == c@,
    {
        Nilpot5(c)
    }

    /// The components, leading first.
    pub fn components(&self) -> (r: [T; 5])
        ensures
            r@ == self@,
    {
        self.0
    }

    /// The additive identity: all components zero.
    pub fn zero() -> (r: Self)
        ensures
            r@.len() == 5,
            <T as FromSpec<i8>>::obeys_from_spec() ==> r@ == null::<T>(5),
    {
        Nilpot5(Nilpot::<T, 5>::zero().0)
    }

    /// The multiplicative identity: leading component one, the others zero.
    pub fn one() -> (r: Self)
        ensures
            r@.len() == 5,
            <T as FromSpec<i8>>::obeys_from_spec() ==> r@ == unit::<T>(5),
    {
        Nilpot5(Nilpot::<T, 5>::one().0)
    }

    /// Componentwise sum.
    pub fn add(&self, rhs: &Self) -> (r: Self)
        requires
            forall|k: int| 0 <= k < 5 ==> #[trigger] self@[k].add_req(rhs@[k]),
        ensures
            r@.len() == 5,
            T::obeys_add_spec() ==> r@ == add_each(self@, rhs@),
    {
        let x = Nilpot(self.0);
        let y = Nilpot(rhs.0);
        assert(x@ == self@ && y@ == rhs@);
        Nilpot5(x.add(&y).0)
    }

    /// Componentwise difference.
    pub fn sub(&self, rhs: &Self) -> (r: Self)
        requires
            forall|k: int| 0 <= k < 5 ==> #[trigger] self@[k].sub_req(rhs@[k]),
        ensures
            r@.len() == 5,
            T::obeys_sub_spec() ==> r@ == sub_each(self@, rhs@),
    {
        let x = Nilpot(self.0);
        let y = Nilpot(rhs.0);
        assert(x@ == self@ && y@ == rhs@);
        Nilpot5(x.sub(&y).0)
    }

    /// Componentwise remainder.
    pub fn rem(&self, rhs: &Self) -> (r: Self)
        requires
            forall|k: int| 0 <= k < 5 ==> #[trigger] self@[k].rem_req(rhs@[k]),
        ensures
            r@.len() == 5,
            T::obeys_rem_spec() ==> r@ == rem_each(self@, rhs@),
    {
        let x = Nilpot(self.0);
        let y = Nilpot(rhs.0);
        assert(x@ == self@ && y@ == rhs@);
        Nilpot5(x.rem(&y).0)
    }

    /// Componentwise negation.
    pub fn neg(&self) -> (r: Self)
        requires
            forall|k: int| 0 <= k < 5 ==> #[trigger] self@[k].neg_req(),
        ensures
            r@.len() == 5,
            T::obeys_neg_spec() ==> r@ == neg_each(self@),
    {
        let x = Nilpot(self.0);
        assert(x@ == self@);
        Nilpot5(x.neg().0)
    }

    /// Componentwise absolute value.
    pub fn abs(&self) -> (r: Self)
        requires
            forall|k: int| 0 <= k < 5 ==> #[trigger] self@[k].neg_req(),
        ensures
            r@.len() == 5,
            order_exact::<T>() ==> r@ == abs_each(self@),
    {
        let x = Nilpot(self.0);
        assert(x@ == self@);
        Nilpot5(x.abs().0)
    }

    /// Componentwise sign.
    pub fn signum(&self) -> (r: Self)
        requires
            minus_one_defined::<T>(),
        ensures
            r@.len() == 5,
            order_exact::<T>() ==> r@ == signum_each(self@),
    {
        let x = Nilpot(self.0);
        assert(x@ == self@);
        Nilpot5(x.signum().0)
    }

    /// Componentwise positive difference, `max(x[k] - y[k], 0)`.
    pub fn abs_sub(&self, rhs: &Self) -> (r: Self)
        requires
            forall|k: int| 0 <= k < 5 ==> #[trigger] self@[k].sub_req(rhs@[k]),
        ensures
            r@.len() == 5,
            order_exact::<T>() ==> r@ == abs_sub_each(self@, rhs@),
    {
        let x = Nilpot(self.0);
        let y = Nilpot(rhs.0);
        assert(x@ == self@ && y@ == rhs@);
        Nilpot5(x.abs_sub(&y).0)
    }

    /// The truncated product.
    pub fn mul(&self, rhs: &Self) -> (r: Self)
        requires
            product_defined(self@, rhs@),
        ensures
            r@.len() == 5,
            ring_exact::<T>() ==> r@ == product(self@, rhs@),
    {
        let x = Nilpot(self.0);
        let y = Nilpot(rhs.0);
        assert(x@ == self@ && y@ == rhs@);
        Nilpot5(x.mul(&y).0)
    }

    /// The truncated quotient: `self` times the inverse of `rhs`.
    pub fn div(&self, rhs: &Self) -> (r: Self)
        requires
            quotient_defined(self@, rhs@),
        ensures
            r@.len() == 5,
            field_exact::<T>() ==> r@ == product(self@, inverse(rhs@)),
    {
        let x = Nilpot(self.0);
        let y = Nilpot(rhs.0);
        assert(x@ == self@ && y@ == rhs@);
        Nilpot5(x.div(&y).0)
    }

    /// Whether the leading component is above zero.
    pub fn is_positive(&self) -> (r: bool)
        ensures
            order_exact::<T>() ==> (r <==> less(zero::<T>(), self@[0])),
    {
        Nilpot(self.0).is_positive()
    }

    /// Whether the leading component is below zero.
    pub fn is_negative(&self) -> (r: bool)
        ensures
            order_exact::<T>() ==> (r <==> less(self@[0], zero::<T>())),
    {
        Nilpot(self.0).is_negative()
    }

    /// Whether every component compares equal to zero.
    pub fn is_zero(&self) -> (r: bool)
        ensures
            T::obeys_eq_spec() && <T as FromSpec<i8>>::obeys_from_spec() ==>
                (r <==> all_equal(self@, null::<T>(5))),
    {
        Nilpot(self.0).is_zero()
    }

    /// Whether some component is less than the one of `rhs` at its place
    /// (not an order: see `Nilpot::lt`).
    pub fn lt(&self, rhs: &Self) -> (r: bool)
        ensures
            T::obeys_partial_cmp_spec() ==> (r <==> any_less(self@, rhs@)),
    {
        Nilpot(self.0).lt(&Nilpot(rhs.0))
    }
}

impl<T: Scalar> PartialEq for Nilpot5<T> {
    /// Whether all components compare equal.
    fn eq(&self, rhs: &Self) -> (r: bool) {
        Nilpot(self.0).eq(&Nilpot(rhs.0))
    }
}

impl<T: Scalar> vstd::std_specs::cmp::PartialEqSpecImpl for Nilpot5<T> {
    open spec fn obeys_eq_spec() -> bool {
        T::obeys_eq_spec()
    }

    open spec fn eq_spec(&self, rhs: &Self) -> bool {
        all_equal(self@, rhs@)
    }
}

} // verus!
