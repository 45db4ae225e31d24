//! Nilpotent numbers: `N` coefficients of a truncated power series, used as
//! a number.
use vstd::prelude::*;
use vstd::std_specs::cmp::{PartialEqSpec, PartialOrdSpec};
use vstd::std_specs::convert::FromSpec;
use vstd::std_specs::ops::{AddSpec, NegSpec, RemSpec, SubSpec};
use core::ops::Neg;
use crate::scalar::{
    Scalar, abs_of, abs_spec, abs_sub_of, abs_sub_spec, field_exact, less, minus_one_defined,
    order_exact, ring_exact, signum_of, signum_spec, zero,
};
use crate::series::{
    inverse, lemma_inverse_prefix_len, null, product, product_defined, quotient_defined, unit,
};

verus! {

/// A nilpotent number with `N` components: component `k` is the coefficient
/// of order `k` of a power series truncated after order `N - 1`.
#[derive(Clone, Copy, Debug)]
pub struct Nilpot<T, const N: usize>(pub [T; N]);

impl<T, const N: usize> View for Nilpot<T, N> {
    type V = Seq<T>;

    open spec fn view(&self) -> Seq<T> {
        self.0@
    }
}

/// Component `k` of `x` plus component `k` of `y`, for each `k`.
pub open spec fn add_each<T: Scalar>(x: Seq<T>, y: Seq<T>) -> Seq<T> {
    Seq::new(x.len(), |k: int| x[k].add_spec(y[k]))
}

/// Component `k` of `x` minus component `k` of `y`, for each `k`.
pub open spec fn sub_each<T: Scalar>(x: Seq<T>, y: Seq<T>) -> Seq<T> {
    Seq::new(x.len(), |k: int| x[k].sub_spec(y[k]))
}

/// Component `k` of `x` modulo component `k` of `y`, for each `k`.
pub open spec fn rem_each<T: Scalar>(x: Seq<T>, y: Seq<T>) -> Seq<T> {
    Seq::new(x.len(), |k: int| x[k].rem_spec(y[k]))
}

/// Minus component `k` of `x`, for each `k`.
pub open spec fn neg_each<T: Scalar>(x: Seq<T>) -> Seq<T> {
    Seq::new(x.len(), |k: int| x[k].neg_spec())
}

/// The absolute value of each component.
pub open spec fn abs_each<T: Scalar>(x: Seq<T>) -> Seq<T> {
    Seq::new(x.len(), |k: int| abs_spec(x[k]))
}

/// The sign of each component.
pub open spec fn signum_each<T: Scalar>(x: Seq<T>) -> Seq<T> {
    Seq::new(x.len(), |k: int| signum_spec(x[k]))
}

/// The positive difference of the components at each place.
pub open spec fn abs_sub_each<T: Scalar>(x: Seq<T>, y: Seq<T>) -> Seq<T> {
    Seq::new(x.len(), |k: int| abs_sub_spec(x[k], y[k]))
}

/// Every component of `x` compares equal to the one of `y` at its place.
pub open spec fn all_equal<T: Scalar>(x: Seq<T>, y: Seq<T>) -> bool {
    forall|k: int| 0 <= k < x.len() ==> #[trigger] x[k].eq_spec(&y[k])
}

/// Some component of `x` is less than the one of `y` at its place.
pub open spec fn any_less<T: Scalar>(x: Seq<T>, y: Seq<T>) -> bool {
    exists|k: int| 0 <= k < x.len() && #[trigger] less(x[k], y[k])
}

impl<T: Scalar, const N: usize> Nilpot<T, N> {
    /// The number with the given components.
    pub fn new(c: [T; N]) -> (r: Self)
        ensures
            r@ == c@,
    {
        Nilpot(c)
    }

    /// The components, leading (order zero) first.
    pub fn components(&self) -> (r: [T; N])
        ensures
            r@ == self@,
    {
        self.0
    }

    /// The additive identity: all components zero.
    pub fn zero() -> (r: Self)
        ensures
            r@.len() == N,
            <T as FromSpec<i8>>::obeys_from_spec() ==> r@ == null::<T>(N as nat),
    {
        let r = Nilpot([T::from(0i8); N]);
        proof {
            if <T as FromSpec<i8>>::obeys_from_spec() {
                assert(r@ =~= null::<T>(N as nat));
            }
        }
        r
    }

    /// The multiplicative identity: leading component one, the others zero.
    pub fn one() -> (r: Self)
        ensures
            r@.len() == N,
            <T as FromSpec<i8>>::obeys_from_spec() ==> r@ == unit::<T>(N as nat),
    {
        let mut c = [T::from(0i8); N];
        if N > 0 {
            c[0] = T::from(1i8);
        }
        let r = Nilpot(c);
        proof {
            if <T as FromSpec<i8>>::obeys_from_spec() {
                assert(r@ =~= unit::<T>(N as nat));
            }
        }
        r
    }

    /// Componentwise sum.
    pub fn add(&self, rhs: &Self) -> (r: Self)
        requires
            forall|k: int| 0 <= k < N ==> #[trigger] self@[k].add_req(rhs@[k]),
        ensures
            r@.len() == N,
            T::obeys_add_spec() ==> r@ == add_each(self@, rhs@),
    {
        let mut c = self.0;
        let mut k: usize = 0;
        while k < N
            invariant
                k <= N,
                c@.len() == N,
                forall|m: int| 0 <= m < N ==> #[trigger] self@[m].add_req(rhs@[m]),
                T::obeys_add_spec() ==> forall|m: int| 0 <= m < k ==> c@[m] == #[trigger] add_each(self@, rhs@)[m],
            decreases N - k,
        {
            assert(self@[k as int].add_req(rhs@[k as int]));
            c[k] = self.0[k] + rhs.0[k];
            k = k + 1;
        }
        let r = Nilpot(c);
        proof {
            if T::obeys_add_spec() {
                assert(r@ =~= add_each(self@, rhs@));
            }
        }
        r
    }

    /// Componentwise difference.
    pub fn sub(&self, rhs: &Self) -> (r: Self)
        requires
            forall|k: int| 0 <= k < N ==> #[trigger] self@[k].sub_req(rhs@[k]),
        ensures
            r@.len() == N,
            T::obeys_sub_spec() ==> r@ == sub_each(self@, rhs@),
    {
        let mut c = self.0;
        let mut k: usize = 0;
        while k < N
            invariant
                k <= N,
                c@.len() == N,
                forall|m: int| 0 <= m < N ==> #[trigger] self@[m].sub_req(rhs@[m]),
                T::obeys_sub_spec() ==> forall|m: int| 0 <= m < k ==> c@[m] == #[trigger] sub_each(self@, rhs@)[m],
            decreases N - k,
        {
            assert(self@[k as int].sub_req(rhs@[k as int]));
            c[k] = self.0[k] - rhs.0[k];
            k = k + 1;
        }
        let r = Nilpot(c);
        proof {
            if T::obeys_sub_spec() {
                assert(r@ =~= sub_each(self@, rhs@));
            }
        }
        r
    }

    /// Componentwise remainder.
    pub fn rem(&self, rhs: &Self) -> (r: Self)
        requires
            forall|k: int| 0 <= k < N ==> #[trigger] self@[k].rem_req(rhs@[k]),
        ensures
            r@.len() == N,
            T::obeys_rem_spec() ==> r@ == rem_each(self@, rhs@),
    {
        let mut c = self.0;
        let mut k: usize = 0;
        while k < N
            invariant
                k <= N,
                c@.len() == N,
                forall|m: int| 0 <= m < N ==> #[trigger] self@[m].rem_req(rhs@[m]),
                T::obeys_rem_spec() ==> forall|m: int| 0 <= m < k ==> c@[m] == #[trigger] rem_each(self@, rhs@)[m],
            decreases N - k,
        {
            assert(self@[k as int].rem_req(rhs@[k as int]));
            c[k] = self.0[k] % rhs.0[k];
            k = k + 1;
        }
        let r = Nilpot(c);
        proof {
            if T::obeys_rem_spec() {
                assert(r@ =~= rem_each(self@, rhs@));
            }
        }
        r
    }

    /// Componentwise negation.
    pub fn neg(&self) -> (r: Self)
        requires
            forall|k: int| 0 <= k < N ==> #[trigger] self@[k].neg_req(),
        ensures
            r@.len() == N,
            T::obeys_neg_spec() ==> r@ == neg_each(self@),
    {
        let mut c = self.0;
        let mut k: usize = 0;
        while k < N
            invariant
                k <= N,
                c@.len() == N,
                forall|m: int| 0 <= m < N ==> #[trigger] self@[m].neg_req(),
                T::obeys_neg_spec() ==> forall|m: int| 0 <= m < k ==> c@[m] == #[trigger] neg_each(self@)[m],
            decreases N - k,
        {
            assert(self@[k as int].neg_req());
            c[k] = self.0[k].neg();
            k = k + 1;
        }
        let r = Nilpot(c);
        proof {
            if T::obeys_neg_spec() {
                assert(r@ =~= neg_each(self@));
            }
        }
        r
    }

    /// Componentwise absolute value.
    pub fn abs(&self) -> (r: Self)
        requires
            forall|k: int| 0 <= k < N ==> #[trigger] self@[k].neg_req(),
        ensures
            r@.len() == N,
            order_exact::<T>() ==> r@ == abs_each(self@),
    {
        let mut c = self.0;
        let mut k: usize = 0;
        while k < N
            invariant
                k <= N,
                c@.len() == N,
                forall|m: int| 0 <= m < N ==> #[trigger] self@[m].neg_req(),
                order_exact::<T>() ==> forall|m: int| 0 <= m < k ==> c@[m] == #[trigger] abs_each(self@)[m],
            decreases N - k,
        {
            assert(self@[k as int].neg_req());
            c[k] = abs_of(self.0[k]);
            k = k + 1;
        }
        let r = Nilpot(c);
        proof {
            if order_exact::<T>() {
                assert(r@ =~= abs_each(self@));
            }
        }
        r
    }

    /// Componentwise sign.
    pub fn signum(&self) -> (r: Self)
        requires
            minus_one_defined::<T>(),
        ensures
            r@.len() == N,
            order_exact::<T>() ==> r@ == signum_each(self@),
    {
        let mut c = self.0;
        let mut k: usize = 0;
        while k < N
            invariant
                k <= N,
                c@.len() == N,
                minus_one_defined::<T>(),
                order_exact::<T>() ==> forall|m: int| 0 <= m < k ==> c@[m] == #[trigger] signum_each(self@)[m],
            decreases N - k,
        {
            c[k] = signum_of(self.0[k]);
            k = k + 1;
        }
        let r = Nilpot(c);
        proof {
            if order_exact::<T>() {
                assert(r@ =~= signum_each(self@));
            }
        }
        r
    }

    /// Componentwise positive difference, `max(x[k] - y[k], 0)`.
    pub fn abs_sub(&self, rhs: &Self) -> (r: Self)
        requires
            forall|k: int| 0 <= k < N ==> #[trigger] self@[k].sub_req(rhs@[k]),
        ensures
            r@.len() == N,
            order_exact::<T>() ==> r@ == abs_sub_each(self@, rhs@),
    {
        let mut c = self.0;
        let mut k: usize = 0;
        while k < N
            invariant
                k <= N,
                c@.len() == N,
                forall|m: int| 0 <= m < N ==> #[trigger] self@[m].sub_req(rhs@[m]),
                order_exact::<T>() ==> forall|m: int| 0 <= m < k ==> c@[m] == #[trigger] abs_sub_each(self@, rhs@)[m],
            decreases N - k,
        {
            assert(self@[k as int].sub_req(rhs@[k as int]));
            c[k] = abs_sub_of(self.0[k], rhs.0[k]);
            k = k + 1;
        }
        let r = Nilpot(c);
        proof {
            if order_exact::<T>() {
                assert(r@ =~= abs_sub_each(self@, rhs@));
            }
        }
        r
    }

    /// Whether the leading component is above zero; the others are
    /// infinitesimal and do not count.
    pub fn is_positive(&self) -> (r: bool)
        requires
            N >= 1,
        ensures
            order_exact::<T>() ==> (r <==> less(zero::<T>(), self@[0])),
    {
        T::from(0i8) < self.0[0]
    }

    /// Whether the leading component is below zero.
    pub fn is_negative(&self) -> (r: bool)
        requires
            N >= 1,
        ensures
            order_exact::<T>() ==> (r <==> less(self@[0], zero::<T>())),
    {
        self.0[0] < T::from(0i8)
    }

    /// Whether every component compares equal to zero.
    pub fn is_zero(&self) -> (r: bool)
        ensures
            T::obeys_eq_spec() && <T as FromSpec<i8>>::obeys_from_spec() ==>
                (r <==> all_equal(self@, null::<T>(N as nat))),
    {
        let z: T = T::from(0i8);
        let mut k: usize = 0;
        while k < N
            invariant
                k <= N,
                <T as FromSpec<i8>>::obeys_from_spec() ==> z == zero::<T>(),
                T::obeys_eq_spec() && <T as FromSpec<i8>>::obeys_from_spec() ==>
                    forall|m: int| 0 <= m < k ==> #[trigger] self@[m].eq_spec(&null::<T>(N as nat)[m]),
            decreases N - k,
        {
            proof {
                if <T as FromSpec<i8>>::obeys_from_spec() {
                    assert(null::<T>(N as nat)[k as int] == z);
                }
            }
            if !(self.0[k] == z) {
                return false;
            }
            k = k + 1;
        }
        true
    }

    /// Whether some component is less than the one of `rhs` at its place.
    /// This relation is not an order: it is not transitive, and both
    /// `x.lt(y)` and `y.lt(x)` may hold.
    pub fn lt(&self, rhs: &Self) -> (r: bool)
        ensures
            T::obeys_partial_cmp_spec() ==> (r <==> any_less(self@, rhs@)),
    {
        let mut k: usize = 0;
        while k < N
            invariant
                k <= N,
                T::obeys_partial_cmp_spec() ==>
                    forall|m: int| 0 <= m < k ==> !#[trigger] less(self@[m], rhs@[m]),
            decreases N - k,
        {
            if self.0[k] < rhs.0[k] {
                proof {
                    if T::obeys_partial_cmp_spec() {
                        assert(less(self@[k as int], rhs@[k as int]));
                    }
                }
                return true;
            }
            k = k + 1;
        }
        false
    }

    /// The truncated product.
    pub fn mul(&self, rhs: &Self) -> (r: Self)
        requires
            product_defined(self@, rhs@),
        ensures
            r@.len() == N,
            ring_exact::<T>() ==> r@ == product(self@, rhs@),
    {
        let mut c = [T::from(0i8); N];
        crate::series::mul(self.0.as_slice(), rhs.0.as_slice(), &mut c);
        Nilpot(c)
    }

    /// The truncated quotient: `self` times the inverse of `rhs`. The leading
    /// component of `rhs` must be invertible.
    pub fn div(&self, rhs: &Self) -> (r: Self)
        requires
            N >= 1,
            quotient_defined(self@, rhs@),
        ensures
            r@.len() == N,
            field_exact::<T>() ==> r@ == product(self@, inverse(rhs@)),
    {
        let mut inv_c = [T::from(0i8); N];
        crate::series::inv(rhs.0.as_slice(), &mut inv_c);
        proof {
            lemma_inverse_prefix_len(rhs@, N as nat);
        }
        let mut c = [T::from(0i8); N];
        crate::series::mul(self.0.as_slice(), inv_c.as_slice(), &mut c);
        Nilpot(c)
    }
}

impl<T: Scalar, const N: usize> PartialEq for Nilpot<T, N> {
    /// Whether all components compare equal.
    fn eq(&self, rhs: &Self) -> (r: bool) {
        let mut k: usize = 0;
        while k < N
            invariant
                k <= N,
                T::obeys_eq_spec() ==>
                    forall|m: int| 0 <= m < k ==> #[trigger] self@[m].eq_spec(&rhs@[m]),
            decreases N - k,
        {
            if !(self.0[k] == rhs.0[k]) {
                return false;
            }
            k = k + 1;
        }
        true
    }
}

impl<T: Scalar, const N: usize> vstd::std_specs::cmp::PartialEqSpecImpl for Nilpot<T, N> {
    open spec fn obeys_eq_spec() -> bool {
        T::obeys_eq_spec()
    }

    open spec fn eq_spec(&self, rhs: &Self) -> bool {
        all_equal(self@, rhs@)
    }
}

} // verus!
