//! Algebraic laws of nilpotent numbers over a field.
use vstd::prelude::*;
use vstd::std_specs::cmp::PartialEqSpec;
use vstd::std_specs::ops::{AddSpec, DivSpec, MulSpec, NegSpec, SubSpec};
use crate::nilpot::{add_each, all_equal, sub_each};
use crate::scalar::{Scalar, field_laws, one, zero};
use crate::series::{
    conv_sum, inverse, inverse_next, inverse_prefix, lemma_inverse_prefix_extends,
    lemma_inverse_prefix_len, neg_tail, null, product, unit,
};

verus! {

proof fn field_add_assoc<T: Scalar>(x: T, y: T, z: T)
    requires
        field_laws::<T>(),
    ensures
        x.add_spec(y).add_spec(z) == x.add_spec(y.add_spec(z)),
{
    reveal(field_laws);
}

proof fn field_add_comm<T: Scalar>(x: T, y: T)
    requires
        field_laws::<T>(),
    ensures
        x.add_spec(y) == y.add_spec(x),
{
    reveal(field_laws);
}

proof fn field_add_zero<T: Scalar>(x: T)
    requires
        field_laws::<T>(),
    ensures
        x.add_spec(zero::<T>()) == x,
{
    reveal(field_laws);
}

proof fn field_add_neg<T: Scalar>(x: T)
    requires
        field_laws::<T>(),
    ensures
        x.add_spec(x.neg_spec()) == zero::<T>(),
{
    reveal(field_laws);
}

proof fn field_sub<T: Scalar>(x: T, y: T)
    requires
        field_laws::<T>(),
    ensures
        x.sub_spec(y) == x.add_spec(y.neg_spec()),
{
    reveal(field_laws);
}

proof fn field_mul_div<T: Scalar>(x: T, y: T)
    requires
        field_laws::<T>(),
        y != zero::<T>(),
    ensures
        y.mul_spec(x.div_spec(y)) == x,
{
    reveal(field_laws);
}

proof fn field_mul_comm<T: Scalar>(x: T, y: T)
    requires
        field_laws::<T>(),
    ensures
        x.mul_spec(y) == y.mul_spec(x),
{
    reveal(field_laws);
}

proof fn field_mul_one<T: Scalar>(x: T)
    requires
        field_laws::<T>(),
    ensures
        x.mul_spec(one::<T>()) == x,
{
    reveal(field_laws);
}

proof fn field_distrib<T: Scalar>(x: T, y: T, z: T)
    requires
        field_laws::<T>(),
    ensures
        x.mul_spec(y.add_spec(z)) == x.mul_spec(y).add_spec(x.mul_spec(z)),
{
    reveal(field_laws);
}

proof fn field_mul_assoc<T: Scalar>(x: T, y: T, z: T)
    requires
        field_laws::<T>(),
    ensures
        x.mul_spec(y).mul_spec(z) == x.mul_spec(y.mul_spec(z)),
{
    reveal(field_laws);
}

proof fn field_eq<T: Scalar>(x: T, y: T)
    requires
        field_laws::<T>(),
    ensures
        x.eq_spec(&y) <==> (x == y),
{
    reveal(field_laws);
}

proof fn lemma_zero_add<T: Scalar>(x: T)
    requires
        field_laws::<T>(),
    ensures
        zero::<T>().add_spec(x) == x,
{
    field_add_comm(zero::<T>(), x);
    field_add_zero(x);
}

proof fn lemma_sub_zero<T: Scalar>(x: T)
    requires
        field_laws::<T>(),
    ensures
        x.sub_spec(zero::<T>()) == x,
        x.sub_spec(x) == zero::<T>(),
{
    let z = zero::<T>();
    field_add_neg(z);
    lemma_zero_add(z.neg_spec());
    field_sub(x, z);
    field_add_zero(x);
    field_sub(x, x);
    field_add_neg(x);
}

/// `(a - n) + t == a - (n - t)`.
proof fn lemma_sub_add<T: Scalar>(a: T, n: T, t: T)
    requires
        field_laws::<T>(),
    ensures
        a.sub_spec(n).add_spec(t) == a.sub_spec(n.sub_spec(t)),
{
    let z = zero::<T>();
    let nn = n.neg_spec();
    let nt = t.neg_spec();
    let d = n.add_spec(nt);
    let e = nn.add_spec(t);
    // d + e == 0
    field_add_assoc(n, nt, e);
    field_add_comm(t, nn);
    field_add_assoc(nt, t, nn);
    field_add_comm(nt, t);
    field_add_neg(t);
    lemma_zero_add(nn);
    field_add_neg(n);
    assert(d.add_spec(e) == z);
    // so e is the negation of d
    let dn = d.neg_spec();
    field_add_neg(d);
    field_add_assoc(dn, d, e);
    field_add_comm(dn, d);
    lemma_zero_add(e);
    field_add_zero(dn);
    assert(dn == e);
    field_sub(a, n);
    field_add_assoc(a, nn, t);
    field_sub(n, t);
    field_sub(a, d);
}

/// Coefficient `i` of `a * r`, summed up to `n` terms, is `a[0] * r[i]`
/// minus the tail that the inversion recurrence accumulates.
proof fn lemma_conv_head_tail<T: Scalar>(a: Seq<T>, r: Seq<T>, i: int, n: int)
    requires
        field_laws::<T>(),
        1 <= n,
    ensures
        conv_sum(a, r, i, n) == a[0].mul_spec(r[i]).sub_spec(neg_tail(a, r, i, n)),
    decreases n,
{
    let h = a[0].mul_spec(r[i]);
    if n == 1 {
        assert(conv_sum(a, r, i, 0) == zero::<T>());
        lemma_zero_add(h);
        lemma_sub_zero(h);
        assert(neg_tail(a, r, i, 1) == zero::<T>());
    } else {
        lemma_conv_head_tail(a, r, i, n - 1);
        let t = a[n - 1].mul_spec(r[i - (n - 1)]);
        lemma_sub_add(h, neg_tail(a, r, i, n - 1), t);
    }
}

/// The tail reads `r` only below `i`.
proof fn lemma_neg_tail_prefix<T: Scalar>(a: Seq<T>, p: Seq<T>, r: Seq<T>, i: int, n: int)
    requires
        n <= i + 1,
        forall|m: int| 0 <= m < i ==> p[m] == r[m],
    ensures
        neg_tail(a, p, i, n) == neg_tail(a, r, i, n),
    decreases n,
{
    if n > 1 {
        lemma_neg_tail_prefix(a, p, r, i, n - 1);
    }
}

/// The product of a series with its inverse is one, whenever the leading
/// coefficient is not zero.
pub proof fn lemma_inverse_correct<T: Scalar>(a: Seq<T>)
    requires
        field_laws::<T>(),
        a.len() >= 1,
        a[0] != zero::<T>(),
    ensures
        product(a, inverse(a)) == unit::<T>(a.len()),
{
    let n = a.len();
    let r = inverse(a);
    lemma_inverse_prefix_len(a, n);
    assert forall|i: int| 0 <= i < n implies #[trigger] conv_sum(a, r, i, i + 1) == unit::<T>(n)[i] by {
        let p = inverse_prefix(a, i as nat);
        lemma_inverse_prefix_extends(a, (i + 1) as nat, n);
        lemma_inverse_prefix_len(a, i as nat);
        lemma_inverse_prefix_len(a, (i + 1) as nat);
        assert(r[i] == inverse_prefix(a, (i + 1) as nat)[i]);
        assert(r[i] == inverse_next(a, p, i));
        lemma_conv_head_tail(a, r, i, i + 1);
        if i == 0 {
            assert(neg_tail(a, r, 0, 1) == zero::<T>());
            field_mul_div(one::<T>(), a[0]);
            lemma_sub_zero(a[0].mul_spec(r[0]));
        } else {
            lemma_inverse_prefix_extends(a, i as nat, n);
            assert forall|m: int| 0 <= m < i implies p[m] == r[m] by {
                assert(p[m] == r.subrange(0, i)[m]);
            }
            lemma_neg_tail_prefix(a, p, r, i, i + 1);
            let d = neg_tail(a, r, i, i + 1);
            field_mul_div(d, a[0]);
            lemma_sub_zero(d);
        }
    }
    assert(product(a, r) =~= unit::<T>(n));
}

/// Adding zero leaves a number unchanged.
pub proof fn lemma_add_zero<T: Scalar>(x: Seq<T>)
    requires
        field_laws::<T>(),
    ensures
        add_each(x, null::<T>(x.len())) == x,
{
    assert forall|k: int| 0 <= k < x.len() implies #[trigger] add_each(x, null::<T>(x.len()))[k] == x[k] by {
        field_add_zero(x[k]);
    }
    assert(add_each(x, null::<T>(x.len())) =~= x);
}

/// A number minus itself is zero.
pub proof fn lemma_sub_self<T: Scalar>(x: Seq<T>)
    requires
        field_laws::<T>(),
    ensures
        sub_each(x, x) == null::<T>(x.len()),
{
    assert forall|k: int| 0 <= k < x.len() implies #[trigger] sub_each(x, x)[k] == null::<T>(x.len())[k] by {
        lemma_sub_zero(x[k]);
    }
    assert(sub_each(x, x) =~= null::<T>(x.len()));
}

/// Zero tests as zero.
pub proof fn lemma_zero_is_zero<T: Scalar>(n: nat)
    requires
        field_laws::<T>(),
    ensures
        all_equal(null::<T>(n), null::<T>(n)),
{
    assert forall|k: int| 0 <= k < n implies #[trigger] null::<T>(n)[k].eq_spec(&null::<T>(n)[k]) by {
        field_eq(null::<T>(n)[k], null::<T>(n)[k]);
    }
}


proof fn lemma_zero_mul<T: Scalar>(y: T)
    requires
        field_laws::<T>(),
    ensures
        zero::<T>().mul_spec(y) == zero::<T>(),
{
    let z = zero::<T>();
    let u = y.mul_spec(z);
    field_mul_comm(z, y);
    field_add_zero(z);
    field_distrib(y, z, z);
    assert(u == u.add_spec(u));
    field_add_neg(u);
    field_add_assoc(u, u, u.neg_spec());
    field_add_zero(u);
}

/// With `unit` on the left, coefficient `i` summed up to `n` terms is `y[i]`.
proof fn lemma_unit_conv<T: Scalar>(y: Seq<T>, i: int, n: int)
    requires
        field_laws::<T>(),
        1 <= n <= i + 1 <= y.len(),
    ensures
        conv_sum(unit::<T>(y.len()), y, i, n) == y[i],
    decreases n,
{
    let u = unit::<T>(y.len());
    if n == 1 {
        assert(conv_sum(u, y, i, 0) == zero::<T>());
        field_mul_comm(one::<T>(), y[i]);
        field_mul_one(y[i]);
        lemma_zero_add(y[i]);
    } else {
        lemma_unit_conv(y, i, n - 1);
        assert(u[n - 1] == zero::<T>());
        lemma_zero_mul(y[i - (n - 1)]);
        field_add_zero(y[i]);
    }
}

/// One times a number is that number.
pub proof fn lemma_one_mul<T: Scalar>(x: Seq<T>)
    requires
        field_laws::<T>(),
    ensures
        product(unit::<T>(x.len()), x) == x,
{
    assert forall|i: int| 0 <= i < x.len() implies #[trigger] product(unit::<T>(x.len()), x)[i] == x[i] by {
        lemma_unit_conv(x, i, i + 1);
    }
    assert(product(unit::<T>(x.len()), x) =~= x);
}



/// `f(0) + f(1) + ... + f(n - 1)`, summed from the left starting at zero.
spec fn sum_of<T: Scalar>(f: spec_fn(int) -> T, n: int) -> T
    decreases n,
{
    if n <= 0 {
        zero::<T>()
    } else {
        sum_of(f, n - 1).add_spec(f(n - 1))
    }
}

proof fn lemma_sum_ext<T: Scalar>(f: spec_fn(int) -> T, g: spec_fn(int) -> T, n: int)
    requires
        forall|j: int| 0 <= j < n ==> #[trigger] f(j) == g(j),
    ensures
        sum_of(f, n) == sum_of(g, n),
    decreases n,
{
    if n > 0 {
        lemma_sum_ext(f, g, n - 1);
    }
}

/// `(a + b) + (c + d) == (a + c) + (b + d)`.
proof fn lemma_add_swap<T: Scalar>(a: T, b: T, c: T, d: T)
    requires
        field_laws::<T>(),
    ensures
        a.add_spec(b).add_spec(c.add_spec(d)) == a.add_spec(c).add_spec(b.add_spec(d)),
{
    field_add_assoc(a, b, c.add_spec(d));
    field_add_assoc(b, c, d);
    field_add_comm(b, c);
    field_add_assoc(c, b, d);
    field_add_assoc(a, c, b.add_spec(d));
}

proof fn lemma_sum_add<T: Scalar>(f: spec_fn(int) -> T, g: spec_fn(int) -> T, n: int)
    requires
        field_laws::<T>(),
    ensures
        sum_of(|j: int| f(j).add_spec(g(j)), n) == sum_of(f, n).add_spec(sum_of(g, n)),
    decreases n,
{
    if n <= 0 {
        field_add_zero(zero::<T>());
    } else {
        lemma_sum_add(f, g, n - 1);
        lemma_add_swap(sum_of(f, n - 1), sum_of(g, n - 1), f(n - 1), g(n - 1));
    }
}

proof fn lemma_sum_mul_right<T: Scalar>(f: spec_fn(int) -> T, c: T, n: int)
    requires
        field_laws::<T>(),
    ensures
        sum_of(f, n).mul_spec(c) == sum_of(|j: int| f(j).mul_spec(c), n),
    decreases n,
{
    if n <= 0 {
        lemma_zero_mul(c);
    } else {
        lemma_sum_mul_right(f, c, n - 1);
        let s = sum_of(f, n - 1);
        field_mul_comm(s.add_spec(f(n - 1)), c);
        field_distrib(c, s, f(n - 1));
        field_mul_comm(c, s);
        field_mul_comm(c, f(n - 1));
    }
}

proof fn lemma_sum_mul_left<T: Scalar>(c: T, f: spec_fn(int) -> T, n: int)
    requires
        field_laws::<T>(),
    ensures
        c.mul_spec(sum_of(f, n)) == sum_of(|j: int| c.mul_spec(f(j)), n),
    decreases n,
{
    if n <= 0 {
        lemma_zero_mul(c);
        field_mul_comm(c, zero::<T>());
    } else {
        lemma_sum_mul_left(c, f, n - 1);
        field_distrib(c, sum_of(f, n - 1), f(n - 1));
    }
}

proof fn lemma_conv_as_sum<T: Scalar>(a: Seq<T>, b: Seq<T>, i: int, n: int)
    ensures
        conv_sum(a, b, i, n) == sum_of(|j: int| a[j].mul_spec(b[i - j]), n),
    decreases n,
{
    if n > 0 {
        lemma_conv_as_sum(a, b, i, n - 1);
    }
}

/// Summing `g(j, k)` over `0 <= k <= j < n` by rows or by columns gives the
/// same.
proof fn lemma_triangle<T: Scalar>(g: spec_fn(int, int) -> T, n: int)
    requires
        field_laws::<T>(),
        n >= 0,
    ensures
        sum_of(|j: int| sum_of(|k: int| g(j, k), j + 1), n)
            == sum_of(|k: int| sum_of(|m: int| g(k + m, k), n - k), n),
    decreases n,
{
    if n > 0 {
        let p = n - 1;
        lemma_triangle(g, p);
        let row = |k: int| g(p, k);
        let a = |k: int| sum_of(|m: int| g(k + m, k), p - k);
        let col = |k: int| sum_of(|m: int| g(k + m, k), n - k);
        let b = |k: int| a(k).add_spec(row(k));
        assert forall|k: int| 0 <= k < n implies #[trigger] col(k) == b(k) by {
            assert(sum_of(|m: int| g(k + m, k), n - k) == sum_of(|m: int| g(k + m, k), p - k).add_spec(g(k + (p - k), k)));
        }
        lemma_sum_ext(col, b, n);
        lemma_sum_add(a, row, n);
        assert(a(p) == zero::<T>());
        field_add_zero(sum_of(a, p));
        lemma_sum_ext(a, |k: int| sum_of(|m: int| g(k + m, k), p - k), p);
        lemma_sum_ext(row, |k: int| g(p, k), n);
    }
}

/// Multiplication of truncated series is associative.
pub proof fn lemma_mul_assoc<T: Scalar>(x: Seq<T>, y: Seq<T>, z: Seq<T>)
    requires
        field_laws::<T>(),
        y.len() == x.len(),
        z.len() == x.len(),
    ensures
        product(product(x, y), z) == product(x, product(y, z)),
{
    let xy = product(x, y);
    let yz = product(y, z);
    assert forall|i: int| 0 <= i < x.len() implies #[trigger] product(xy, z)[i] == product(x, yz)[i] by {
        let g = |j: int, k: int| x[k].mul_spec(y[j - k].mul_spec(z[i - j]));
        // by rows: the left side
        lemma_conv_as_sum(xy, z, i, i + 1);
        assert forall|j: int| 0 <= j < i + 1 implies
            #[trigger] xy[j].mul_spec(z[i - j]) == sum_of(|k: int| g(j, k), j + 1) by {
            lemma_conv_as_sum(x, y, j, j + 1);
            let f = |k: int| x[k].mul_spec(y[j - k]);
            lemma_sum_mul_right(f, z[i - j], j + 1);
            let fz = |k: int| f(k).mul_spec(z[i - j]);
            let gj = |k: int| g(j, k);
            assert forall|k: int| 0 <= k < j + 1 implies #[trigger] fz(k) == gj(k) by {
                field_mul_assoc(x[k], y[j - k], z[i - j]);
            }
            lemma_sum_ext(fz, gj, j + 1);
        }
        lemma_sum_ext(
            |j: int| xy[j].mul_spec(z[i - j]),
            |j: int| sum_of(|k: int| g(j, k), j + 1),
            i + 1,
        );
        lemma_triangle(g, i + 1);
        // by columns: the right side
        lemma_conv_as_sum(x, yz, i, i + 1);
        assert forall|k: int| 0 <= k < i + 1 implies
            #[trigger] x[k].mul_spec(yz[i - k]) == sum_of(|m: int| g(k + m, k), i + 1 - k) by {
            lemma_conv_as_sum(y, z, i - k, i - k + 1);
            let f = |m: int| y[m].mul_spec(z[i - k - m]);
            lemma_sum_mul_left(x[k], f, i - k + 1);
            let xf = |m: int| x[k].mul_spec(f(m));
            let gk = |m: int| g(k + m, k);
            assert forall|m: int| 0 <= m < i + 1 - k implies #[trigger] xf(m) == gk(m) by {
                assert(k + m - k == m);
                assert(i - (k + m) == i - k - m);
            }
            lemma_sum_ext(xf, gk, i + 1 - k);
        }
        lemma_sum_ext(
            |k: int| x[k].mul_spec(yz[i - k]),
            |k: int| sum_of(|m: int| g(k + m, k), i + 1 - k),
            i + 1,
        );
    }
    assert(product(xy, z) =~= product(x, yz));
}


/// With `unit` on the right, coefficient `i` summed over `n <= i` terms is
/// zero.
proof fn lemma_conv_unit_below<T: Scalar>(x: Seq<T>, i: int, n: int)
    requires
        field_laws::<T>(),
        0 <= n <= i < x.len(),
    ensures
        conv_sum(x, unit::<T>(x.len()), i, n) == zero::<T>(),
    decreases n,
{
    if n > 0 {
        lemma_conv_unit_below(x, i, n - 1);
        let t = x[n - 1];
        assert(unit::<T>(x.len())[i - (n - 1)] == zero::<T>());
        lemma_zero_mul(t);
        field_mul_comm(zero::<T>(), t);
        field_add_zero(zero::<T>());
    }
}

/// A number times one is that number.
pub proof fn lemma_mul_one<T: Scalar>(x: Seq<T>)
    requires
        field_laws::<T>(),
    ensures
        product(x, unit::<T>(x.len())) == x,
{
    let u = unit::<T>(x.len());
    assert forall|i: int| 0 <= i < x.len() implies #[trigger] product(x, u)[i] == x[i] by {
        lemma_conv_unit_below(x, i, i);
        assert(u[i - i] == one::<T>());
        field_mul_one(x[i]);
        lemma_zero_add(x[i]);
    }
    assert(product(x, u) =~= x);
}

/// Multiplying a number by another and dividing by it again gives back the
/// first, whenever the divisor's leading coefficient is not zero.
pub proof fn lemma_mul_div<T: Scalar>(x: Seq<T>, y: Seq<T>)
    requires
        field_laws::<T>(),
        y.len() == x.len(),
        y.len() >= 1,
        y[0] != zero::<T>(),
    ensures
        product(product(x, y), inverse(y)) == x,
{
    lemma_inverse_prefix_len(y, y.len());
    lemma_mul_assoc(x, y, inverse(y));
    lemma_inverse_correct(y);
    lemma_mul_one(x);
}

} // verus!
