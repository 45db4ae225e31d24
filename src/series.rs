//! Truncated power series: multiplication and inversion modulo `x^N`.
use vstd::prelude::*;
use vstd::std_specs::ops::{AddSpec, DivSpec, MulSpec, SubSpec};
use crate::scalar::{Scalar, divisible_by, field_exact, one, ring_exact, ring_total, zero};

verus! {

/// `a[0] * b[i] + a[1] * b[i - 1] + ... + a[n - 1] * b[i - n + 1]`, summed
/// from the left starting at zero.
pub open spec fn conv_sum<T: Scalar>(a: Seq<T>, b: Seq<T>, i: int, n: int) -> T
    decreases n,
{
    if n <= 0 {
        zero::<T>()
    } else {
        conv_sum(a, b, i, n - 1).add_spec(a[n - 1].mul_spec(b[i - (n - 1)]))
    }
}

/// The product of two series truncated to the length of `a`: coefficient `i`
/// is the sum of `a[j] * b[i - j]` for `j` in `0..=i`.
pub open spec fn product<T: Scalar>(a: Seq<T>, b: Seq<T>) -> Seq<T> {
    Seq::new(a.len(), |i: int| conv_sum(a, b, i, i + 1))
}

/// `zero - a[1] * r[i - 1] - ... - a[n - 1] * r[i - n + 1]`, subtracted from
/// the left.
pub open spec fn neg_tail<T: Scalar>(a: Seq<T>, r: Seq<T>, i: int, n: int) -> T
    decreases n,
{
    if n <= 1 {
        zero::<T>()
    } else {
        neg_tail(a, r, i, n - 1).sub_spec(a[n - 1].mul_spec(r[i - (n - 1)]))
    }
}

/// Coefficient `i` of the inverse of `a`, given its coefficients `r` below `i`.
pub open spec fn inverse_next<T: Scalar>(a: Seq<T>, r: Seq<T>, i: int) -> T {
    if i == 0 {
        one::<T>().div_spec(a[0])
    } else {
        neg_tail(a, r, i, i + 1).div_spec(a[0])
    }
}

/// The first `n` coefficients of the inverse of `a`.
pub open spec fn inverse_prefix<T: Scalar>(a: Seq<T>, n: nat) -> Seq<T>
    decreases n,
{
    if n == 0 {
        Seq::empty()
    } else {
        let r = inverse_prefix(a, (n - 1) as nat);
        r.push(inverse_next(a, r, n - 1))
    }
}

/// The inverse of `a`, truncated to the length of `a`.
pub open spec fn inverse<T: Scalar>(a: Seq<T>) -> Seq<T> {
    inverse_prefix(a, a.len())
}

/// The series `1 + 0x + ... + 0x^(n-1)`.
pub open spec fn unit<T: Scalar>(n: nat) -> Seq<T> {
    Seq::new(n, |i: int| if i == 0 { one::<T>() } else { zero::<T>() })
}

/// The series `0 + 0x + ... + 0x^(n-1)`.
pub open spec fn null<T: Scalar>(n: nat) -> Seq<T> {
    Seq::new(n, |i: int| zero::<T>())
}

pub proof fn lemma_inverse_prefix_len<T: Scalar>(a: Seq<T>, n: nat)
    ensures
        inverse_prefix(a, n).len() == n,
    decreases n,
{
    if n > 0 {
        lemma_inverse_prefix_len(a, (n - 1) as nat);
    }
}

pub proof fn lemma_inverse_prefix_extends<T: Scalar>(a: Seq<T>, m: nat, n: nat)
    requires
        m <= n,
    ensures
        inverse_prefix(a, n).subrange(0, m as int) == inverse_prefix(a, m),
    decreases n,
{
    lemma_inverse_prefix_len(a, n);
    lemma_inverse_prefix_len(a, m);
    if m < n {
        lemma_inverse_prefix_extends(a, m, (n - 1) as nat);
        lemma_inverse_prefix_len(a, (n - 1) as nat);
        assert(inverse_prefix(a, n).subrange(0, m as int) =~= inverse_prefix(a, (n - 1) as nat).subrange(0, m as int));
    } else {
        assert(inverse_prefix(a, n).subrange(0, m as int) =~= inverse_prefix(a, m));
    }
}

/// Step `j` of coefficient `i` of the product of `a` and `b` is defined.
pub open spec fn conv_step_defined<T: Scalar>(a: Seq<T>, b: Seq<T>, i: int, j: int) -> bool {
    &&& a[j].mul_req(b[i - j])
    &&& conv_sum(a, b, i, j).add_req(a[j].mul_spec(b[i - j]))
}

/// Every operation that multiplying `a` by `b` performs is defined: the
/// operations of `T` are total, or they are exact and each step of each
/// coefficient is defined (no overflow, for an integer type).
pub open spec fn product_defined<T: Scalar>(a: Seq<T>, b: Seq<T>) -> bool {
    ||| ring_total::<T>()
    ||| ring_exact::<T>() && forall|i: int, j: int|
        0 <= j <= i < a.len() ==> #[trigger] conv_step_defined(a, b, i, j)
}

/// Step `j` of coefficient `i` of the inverse of `a` is defined.
pub open spec fn inverse_step_defined<T: Scalar>(a: Seq<T>, i: int, j: int) -> bool {
    let r = inverse_prefix(a, i as nat);
    &&& a[j].mul_req(r[i - j])
    &&& neg_tail(a, r, i, j).sub_req(a[j].mul_spec(r[i - j]))
}

/// The division that ends coefficient `i` of the inverse of `a` is defined.
pub open spec fn inverse_div_defined<T: Scalar>(a: Seq<T>, i: int) -> bool {
    if i == 0 {
        one::<T>().div_req(a[0])
    } else {
        neg_tail(a, inverse_prefix(a, i as nat), i, i + 1).div_req(a[0])
    }
}

/// Every operation that inverting `a` performs is defined: the operations of
/// `T` are total and division by `a[0]` is defined, or they are exact and
/// each step of each coefficient is defined.
pub open spec fn inverse_defined<T: Scalar>(a: Seq<T>) -> bool {
    ||| ring_total::<T>() && divisible_by(a[0])
    ||| field_exact::<T>()
        && (forall|i: int, j: int| 1 <= j <= i < a.len() ==> #[trigger] inverse_step_defined(a, i, j))
        && (forall|i: int| 0 <= i < a.len() ==> #[trigger] inverse_div_defined(a, i))
}

/// Every operation that dividing `x` by `y` performs is defined.
pub open spec fn quotient_defined<T: Scalar>(x: Seq<T>, y: Seq<T>) -> bool {
    &&& inverse_defined(y)
    &&& ring_total::<T>() || field_exact::<T>() && product_defined(x, inverse(y))
}

/// Multiplies two series of equal length, truncating the product to that
/// length: `res[i]` becomes the sum of `a[j] * b[i - j]` over `j` in `0..=i`.
pub fn mul<T: Scalar>(a: &[T], b: &[T], res: &mut [T])
    requires
        a@.len() == old(res)@.len(),
        b@.len() == old(res)@.len(),
        product_defined(a@, b@),
    ensures
        final(res)@.len() == old(res)@.len(),
        ring_exact::<T>() ==> final(res)@ == product(a@, b@),
{
    let n = res.len();
    let mut i: usize = 0;
    while i < n
        invariant
            n == res@.len(),
            a@.len() == n,
            b@.len() == n,
            product_defined(a@, b@),
            i <= n,
            ring_exact::<T>() ==> forall|k: int| 0 <= k < i ==> res@[k] == #[trigger] conv_sum(a@, b@, k, k + 1),
        decreases n - i,
    {
        let mut s: T = T::from(0i8);
        let mut j: usize = 0;
        while j <= i
            invariant
                i < n,
                n == res@.len(),
                a@.len() == n,
                b@.len() == n,
                j <= i + 1,
                product_defined(a@, b@),
                ring_exact::<T>() ==> s == conv_sum(a@, b@, i as int, j as int),
            decreases i + 1 - j,
        {
            proof {
                if !ring_total::<T>() {
                    assert(conv_step_defined(a@, b@, i as int, j as int));
                }
            }
            s = s + a[j] * b[i - j];
            j = j + 1;
        }
        res[i] = s;
        i = i + 1;
    }
    proof {
        if ring_exact::<T>() {
            assert(res@ =~= product(a@, b@));
        }
    }
}

/// Inverts a series whose leading coefficient is invertible: `res` becomes
/// the series `r` with `r[0] = 1 / a[0]` and, for `i >= 1`,
/// `r[i] = -(a[1] * r[i - 1] + ... + a[i] * r[0]) / a[0]`, so that `a * r`
/// is one up to the truncation.
pub fn inv<T: Scalar>(a: &[T], res: &mut [T])
    requires
        a@.len() == old(res)@.len(),
        a@.len() >= 1,
        inverse_defined(a@),
    ensures
        final(res)@.len() == old(res)@.len(),
        field_exact::<T>() ==> final(res)@ == inverse(a@),
{
    let n = res.len();
    let one_t: T = T::from(1i8);
    let a0: T = a[0];
    proof {
        if ring_total::<T>() && divisible_by(a@[0]) {
            assert(one_t.div_req(a@[0]));
        } else {
            assert(inverse_div_defined(a@, 0));
        }
    }
    res[0] = one_t / a0;
    proof {
        lemma_inverse_prefix_len(a@, 1);
        if field_exact::<T>() {
            assert(res@.subrange(0, 1) =~= inverse_prefix(a@, 1));
        }
    }
    let mut i: usize = 1;
    while i < n
        invariant
            n == res@.len(),
            a@.len() == n,
            1 <= i <= n,
            a0 == a@[0],
            inverse_defined(a@),
            field_exact::<T>() ==> res@.subrange(0, i as int) == inverse_prefix(a@, i as nat),
        decreases n - i,
    {
        let mut s: T = T::from(0i8);
        let mut j: usize = 1;
        while j <= i
            invariant
                1 <= i < n,
                n == res@.len(),
                a@.len() == n,
                1 <= j <= i + 1,
                inverse_defined(a@),
                field_exact::<T>() ==> res@.subrange(0, i as int) == inverse_prefix(a@, i as nat),
                field_exact::<T>() ==> s == neg_tail(a@, inverse_prefix(a@, i as nat), i as int, j as int),
            decreases i + 1 - j,
        {
            proof {
                if field_exact::<T>() {
                    assert(res@[i - j] == res@.subrange(0, i as int)[i - j]);
                }
                if !ring_total::<T>() {
                    assert(inverse_step_defined(a@, i as int, j as int));
                }
            }
            s = s - a[j] * res[i - j];
            j = j + 1;
        }
        let ghost prev = res@;
        proof {
            if ring_total::<T>() && divisible_by(a@[0]) {
                assert(s.div_req(a@[0]));
            } else {
                assert(inverse_div_defined(a@, i as int));
            }
        }
        res[i] = s / a0;
        proof {
            if field_exact::<T>() {
                lemma_inverse_prefix_len(a@, i as nat);
                assert(res@.subrange(0, i + 1) =~= prev.subrange(0, i as int).push(res@[i as int]));
            }
        }
        i = i + 1;
    }
    proof {
        if field_exact::<T>() {
            assert(res@ =~= res@.subrange(0, n as int));
        }
    }
}

} // verus!
