//! Why shards combine to the secret: the weighted sum of the values of a
//! polynomial at as many distinct points as it has coefficients, or more, is
//! its value at 0.

use crate::shamir::gf256::{
    gf_inv, gf_mul, lemma_add_assoc, lemma_add_cancel, lemma_add_comm, lemma_add_eq,
    lemma_add_interchange, lemma_add_zero, lemma_division_step, lemma_mul_assoc,
    lemma_mul_cancel, lemma_mul_cancel_one, lemma_mul_comm, lemma_mul_distrib,
    lemma_mul_distrib_left, lemma_mul_one, lemma_mul_zero,
};
use crate::shamir::{
    combined, distinct, eval, extended, factor, interpolate, points, shifted, values_at, weight,
    weight_upto, weighted_sum, DealerView, ShamirError, ShardView,
};
use vstd::prelude::*;

verus! {

/// `n` times the value `c`.
pub open spec fn constant(n: nat, c: u8) -> Seq<u8> {
    Seq::new(n, |j: int| c)
}

/// The values of the polynomial `p` at the points `xs`.
pub open spec fn evals(p: Seq<u8>, xs: Seq<u8>) -> Seq<u8> {
    Seq::new(xs.len(), |j: int| eval(p, xs[j]))
}

/// The quotient of the polynomial `p` by x + `r`.
pub open spec fn quotient(p: Seq<u8>, r: u8) -> Seq<u8>
    decreases p.len(),
{
    if p.len() <= 1 {
        Seq::<u8>::empty()
    } else {
        seq![eval(p.drop_first(), r)] + quotient(p.drop_first(), r)
    }
}

/// The quotient has one coefficient less.
proof fn lemma_quotient_len(p: Seq<u8>, r: u8)
    ensures
        quotient(p, r).len() == if p.len() == 0 {
            0
        } else {
            p.len() - 1
        },
    decreases p.len(),
{
    if p.len() > 1 {
        lemma_quotient_len(p.drop_first(), r);
    }
}

/// A polynomial is its value at `r` plus x + `r` times its quotient by
/// x + `r`.
proof fn lemma_quotient(p: Seq<u8>, r: u8, x: u8)
    ensures
        eval(p, x) == eval(p, r) ^ gf_mul(x ^ r, eval(quotient(p, r), x)),
    decreases p.len(),
{
    let q = quotient(p, r);
    lemma_mul_zero(x ^ r);
    lemma_add_zero(eval(p, r));
    if p.len() == 0 {
    } else if p.len() == 1 {
        lemma_mul_zero(x);
        lemma_mul_zero(r);
        assert(eval(p.drop_first(), x) == 0);
        assert(eval(p.drop_first(), r) == 0);
    } else {
        let higher = p.drop_first();
        let higher_quotient = quotient(higher, r);
        let carried = eval(higher, r);
        lemma_quotient(higher, r, x);
        assert(q.drop_first() =~= higher_quotient);
        lemma_division_step(x, r, carried, eval(higher_quotient, x));
        lemma_add_assoc(p[0], gf_mul(r, carried), gf_mul(x ^ r, eval(q, x)));
    }
}

/// The value of a polynomial at 0 is its lowest coefficient.
pub proof fn lemma_eval_at_zero(p: Seq<u8>)
    ensures
        eval(p, 0) == if p.len() == 0 {
            0u8
        } else {
            p[0]
        },
{
    if p.len() > 0 {
        lemma_mul_zero(eval(p.drop_first(), 0));
        lemma_add_zero(p[0]);
    }
}

/// The product of the first factors of a weight depends on the first points
/// and on the point of the weight only.
proof fn lemma_weight_upto_prefix(xs: Seq<u8>, xs2: Seq<u8>, j: int, m: int)
    requires
        0 <= m <= xs.len(),
        m <= xs2.len(),
        0 <= j < xs.len(),
        j < xs2.len(),
        xs[j] == xs2[j],
        forall|t: int| 0 <= t < m ==> xs[t] == xs2[t],
    ensures
        weight_upto(xs, j, m) == weight_upto(xs2, j, m),
    decreases m,
{
    if m > 0 {
        lemma_weight_upto_prefix(xs, xs2, j, m - 1);
    }
}

/// The weight of a point among points is its weight among all but the last
/// of them, times the factor of the last.
proof fn lemma_weight_drop_last(xs: Seq<u8>, j: int)
    requires
        0 <= j < xs.len() - 1,
    ensures
        weight(xs, j) == gf_mul(
            gf_mul(xs.last(), gf_inv(xs.last() ^ xs[j])),
            weight(xs.drop_last(), j),
        ),
{
    let n = xs.len() as int;
    lemma_weight_upto_prefix(xs, xs.drop_last(), j, n - 1);
    lemma_mul_comm(weight_upto(xs, j, n - 1), factor(xs, j, n - 1));
}

/// The product of the first factors of a weight, the first of them taken
/// out.
proof fn lemma_weight_upto_drop_first(xs: Seq<u8>, j: int, m: int)
    requires
        0 <= j < xs.len() - 1,
        0 <= m <= xs.len() - 1,
    ensures
        weight_upto(xs, j + 1, m + 1) == gf_mul(
            gf_mul(xs[0], gf_inv(xs[0] ^ xs[j + 1])),
            weight_upto(xs.drop_first(), j, m),
        ),
    decreases m,
{
    let f = gf_mul(xs[0], gf_inv(xs[0] ^ xs[j + 1]));
    let rest = xs.drop_first();
    lemma_mul_one(f);
    if m == 0 {
        assert(weight_upto(xs, j + 1, 0) == 1);
    } else {
        lemma_weight_upto_drop_first(xs, j, m - 1);
        lemma_mul_assoc(f, weight_upto(rest, j, m - 1), factor(rest, j, m - 1));
    }
}

/// The weight of a point among points is its weight among all but the first
/// of them, times the factor of the first.
proof fn lemma_weight_drop_first(xs: Seq<u8>, j: int)
    requires
        0 <= j < xs.len() - 1,
    ensures
        weight(xs, j + 1) == gf_mul(
            gf_mul(xs[0], gf_inv(xs[0] ^ xs[j + 1])),
            weight(xs.drop_first(), j),
        ),
{
    lemma_weight_upto_drop_first(xs, j, xs.len() - 1);
}

/// The weighted sum of sums is the sum of the weighted sums.
proof fn lemma_sum_add(xs: Seq<u8>, ys: Seq<u8>, ys1: Seq<u8>, ys2: Seq<u8>, k: int)
    requires
        0 <= k <= ys.len(),
        k <= ys1.len(),
        k <= ys2.len(),
        forall|j: int| 0 <= j < k ==> ys[j] == ys1[j] ^ ys2[j],
    ensures
        weighted_sum(xs, ys, k) == weighted_sum(xs, ys1, k) ^ weighted_sum(xs, ys2, k),
    decreases k,
{
    if k == 0 {
        lemma_add_zero(0);
    } else {
        lemma_sum_add(xs, ys, ys1, ys2, k - 1);
        let w = weight(xs, k - 1);
        lemma_mul_distrib_left(ys1[k - 1], ys2[k - 1], w);
        lemma_add_interchange(
            weighted_sum(xs, ys1, k - 1),
            weighted_sum(xs, ys2, k - 1),
            gf_mul(ys1[k - 1], w),
            gf_mul(ys2[k - 1], w),
        );
    }
}

/// The weighted sum of multiples is the multiple of the weighted sum.
proof fn lemma_sum_scale(xs: Seq<u8>, ys: Seq<u8>, es: Seq<u8>, c: u8, k: int)
    requires
        0 <= k <= ys.len(),
        k <= es.len(),
        forall|j: int| 0 <= j < k ==> ys[j] == gf_mul(c, es[j]),
    ensures
        weighted_sum(xs, ys, k) == gf_mul(c, weighted_sum(xs, es, k)),
    decreases k,
{
    if k == 0 {
        lemma_mul_zero(c);
    } else {
        lemma_sum_scale(xs, ys, es, c, k - 1);
        let w = weight(xs, k - 1);
        lemma_mul_assoc(c, es[k - 1], w);
        lemma_mul_distrib(c, weighted_sum(xs, es, k - 1), gf_mul(es[k - 1], w));
    }
}

/// Values that are multiples of the distance to the last point: their
/// weighted sum is the last point times the weighted sum of the other
/// factors among the other points.
proof fn lemma_sum_drop_last(xs: Seq<u8>, zs: Seq<u8>, es: Seq<u8>, k: int)
    requires
        distinct(xs),
        0 <= k <= xs.len() - 1,
        k <= zs.len(),
        k <= es.len(),
        forall|j: int| 0 <= j < k ==> zs[j] == gf_mul(xs[j] ^ xs.last(), es[j]),
    ensures
        weighted_sum(xs, zs, k) == gf_mul(xs.last(), weighted_sum(xs.drop_last(), es, k)),
    decreases k,
{
    let r = xs.last();
    let rest = xs.drop_last();
    if k == 0 {
        lemma_mul_zero(r);
    } else {
        let j = k - 1;
        lemma_sum_drop_last(xs, zs, es, j);
        let u = xs[j] ^ r;
        lemma_add_comm(xs[j], r);
        lemma_add_eq(xs[j], r);
        lemma_weight_drop_last(xs, j);
        lemma_mul_cancel(u, es[j], r, weight(rest, j));
        lemma_mul_distrib(r, weighted_sum(rest, es, j), gf_mul(es[j], weight(rest, j)));
    }
}

/// Values that are multiples of the distance to the first point: their
/// weighted sum is the first point times the weighted sum of the other
/// factors among the other points.
proof fn lemma_sum_drop_first(xs: Seq<u8>, zs: Seq<u8>, es: Seq<u8>, k: int)
    requires
        distinct(xs),
        0 <= k <= xs.len() - 1,
        k + 1 <= zs.len(),
        k <= es.len(),
        zs[0] == 0,
        forall|j: int| 0 <= j < k ==> zs[j + 1] == gf_mul(xs[j + 1] ^ xs[0], es[j]),
    ensures
        weighted_sum(xs, zs, k + 1) == gf_mul(xs[0], weighted_sum(xs.drop_first(), es, k)),
    decreases k,
{
    let a = xs[0];
    let rest = xs.drop_first();
    if k == 0 {
        lemma_mul_zero(a);
        lemma_mul_zero(weight(xs, 0));
        lemma_add_zero(0);
        assert(weighted_sum(xs, zs, 0) == 0);
    } else {
        let j = k - 1;
        lemma_sum_drop_first(xs, zs, es, j);
        let u = xs[j + 1] ^ a;
        lemma_add_comm(xs[j + 1], a);
        lemma_add_eq(xs[j + 1], a);
        lemma_weight_drop_first(xs, j);
        lemma_mul_cancel(u, es[j], a, weight(rest, j));
        lemma_mul_distrib(a, weighted_sum(rest, es, j), gf_mul(es[j], weight(rest, j)));
    }
}

/// The weights of distinct points add up to 1.
proof fn lemma_unity(xs: Seq<u8>)
    requires
        distinct(xs),
        xs.len() >= 1,
    ensures
        interpolate(xs, constant(xs.len(), 1)) == 1,
    decreases xs.len(),
{
    let n = xs.len() as int;
    let ones = constant(xs.len(), 1);
    if n == 1 {
        lemma_mul_one(1);
        lemma_add_zero(1);
        assert(weight_upto(xs, 0, 0) == 1);
        assert(weighted_sum(xs, ones, 0) == 0);
    } else {
        let a = xs[0];
        let r = xs.last();
        let fewer = constant((n - 1) as nat, 1);
        // The distances to the last point.
        let zr = Seq::new(xs.len(), |j: int| xs[j] ^ r);
        assert forall|j: int| 0 <= j < n - 1 implies zr[j] == gf_mul(xs[j] ^ r, fewer[j]) by {
            lemma_mul_one(xs[j] ^ r);
        }
        lemma_sum_drop_last(xs, zr, fewer, n - 1);
        lemma_unity(xs.drop_last());
        lemma_mul_one(r);
        lemma_add_zero(r);
        lemma_mul_zero(weight(xs, n - 1));
        // The distances to the first point.
        let za = Seq::new(xs.len(), |j: int| xs[j] ^ a);
        lemma_add_zero(a);
        assert forall|j: int| 0 <= j < n - 1 implies za[j + 1] == gf_mul(
            xs[j + 1] ^ a,
            fewer[j],
        ) by {
            lemma_mul_one(xs[j + 1] ^ a);
        }
        lemma_sum_drop_first(xs, za, fewer, n - 1);
        lemma_unity(xs.drop_first());
        lemma_mul_one(a);
        // Their sums are the distance of the two points, whatever the point.
        let c = r ^ a;
        let cs = constant(xs.len(), c);
        assert forall|j: int| 0 <= j < n implies cs[j] == zr[j] ^ za[j] by {
            lemma_add_cancel(r, xs[j], a);
        }
        lemma_sum_add(xs, cs, zr, za, n);
        lemma_sum_scale(xs, cs, ones, c, n);
        lemma_add_eq(r, a);
        lemma_mul_cancel_one(c, weighted_sum(xs, ones, n));
    }
}

/// The values of a polynomial at distinct points, as many as it has
/// coefficients or more, interpolate to its value at 0.
pub proof fn lemma_interpolate(xs: Seq<u8>, p: Seq<u8>)
    requires
        distinct(xs),
        xs.len() >= 1,
        p.len() <= xs.len(),
    ensures
        interpolate(xs, evals(p, xs)) == eval(p, 0),
    decreases xs.len(),
{
    let n = xs.len() as int;
    let ys = evals(p, xs);
    if n == 1 {
        lemma_eval_at_zero(p);
        lemma_mul_one(ys[0]);
        lemma_add_zero(ys[0]);
        assert(weight_upto(xs, 0, 0) == 1);
        lemma_mul_one(1);
        assert(weighted_sum(xs, ys, 0) == 0);
        if p.len() == 1 {
            lemma_mul_zero(xs[0]);
            assert(eval(p.drop_first(), xs[0]) == 0);
            lemma_add_zero(p[0]);
        }
    } else {
        let r = xs.last();
        let q = quotient(p, r);
        let c = eval(p, r);
        let rest = xs.drop_last();
        lemma_quotient_len(p, r);
        let ones = constant(xs.len(), 1);
        let cs = constant(xs.len(), c);
        let zs = Seq::new(xs.len(), |j: int| gf_mul(xs[j] ^ r, eval(q, xs[j])));
        let es = evals(q, rest);
        // The values are the value at the last point plus multiples of the
        // distance to it.
        assert forall|j: int| 0 <= j < n implies ys[j] == cs[j] ^ zs[j] by {
            lemma_quotient(p, r, xs[j]);
        }
        lemma_sum_add(xs, ys, cs, zs, n);
        // The constant part.
        assert forall|j: int| 0 <= j < n implies cs[j] == gf_mul(c, ones[j]) by {
            lemma_mul_one(c);
        }
        lemma_sum_scale(xs, cs, ones, c, n);
        lemma_unity(xs);
        // The multiples.
        lemma_sum_drop_last(xs, zs, es, n - 1);
        lemma_interpolate(rest, q);
        lemma_add_zero(r);
        lemma_mul_zero(eval(q, r));
        lemma_mul_zero(weight(xs, n - 1));
        lemma_add_zero(gf_mul(r, eval(q, 0)));
        lemma_quotient(p, r, 0);
    }
}

/// Shards of one dealer at distinct points other than 0, as many as its
/// threshold or more, combine to the secret of the dealer.
pub proof fn lemma_combined_is_secret(dealer: DealerView, shards: Seq<ShardView>)
    requires
        shards.len() >= 1,
        forall|i: int|
            0 <= i < dealer.polys.len() ==> 1 <= (#[trigger] dealer.polys[i]).len()
                <= shards.len(),
        forall|j: int|
            0 <= j < shards.len() ==> (#[trigger] shards[j]).x != 0 && shards[j]
                == dealer.shard_at(shards[j].x),
        distinct(points(shards)),
    ensures
        combined(shards) == Ok::<_, ShamirError>(dealer.secret()),
{
    let xs = points(shards);
    let found = Seq::new(shards[0].ys.len(), |i: int| interpolate(xs, values_at(shards, i)));
    assert forall|i: int| 0 <= i < dealer.polys.len() implies found[i] == dealer.secret()[i] by {
        let p = dealer.polys[i];
        assert(values_at(shards, i) =~= evals(p, xs));
        lemma_interpolate(xs, p);
        lemma_eval_at_zero(p);
    }
    assert(found =~= dealer.secret());
}

/// The polynomial `c` + (x + `t`) q, for the polynomial `q`.
pub open spec fn times_linear(q: Seq<u8>, t: u8, c: u8) -> Seq<u8>
    decreases q.len(),
{
    if q.len() == 0 {
        seq![c]
    } else {
        seq![c ^ gf_mul(t, q[0])] + times_linear(q.drop_first(), t, q[0])
    }
}

/// The polynomial that has at x the value of `p` at x + `t`.
pub open spec fn moved(p: Seq<u8>, t: u8) -> Seq<u8>
    decreases p.len(),
{
    if p.len() == 0 {
        Seq::<u8>::empty()
    } else {
        times_linear(moved(p.drop_first(), t), t, p[0])
    }
}

proof fn lemma_times_linear_len(q: Seq<u8>, t: u8, c: u8)
    ensures
        times_linear(q, t, c).len() == q.len() + 1,
    decreases q.len(),
{
    if q.len() > 0 {
        lemma_times_linear_len(q.drop_first(), t, q[0]);
    }
}

proof fn lemma_times_linear(q: Seq<u8>, t: u8, c: u8, y: u8)
    ensures
        eval(times_linear(q, t, c), y) == c ^ gf_mul(y ^ t, eval(q, y)),
    decreases q.len(),
{
    let made = times_linear(q, t, c);
    if q.len() == 0 {
        lemma_mul_zero(y);
        lemma_mul_zero(y ^ t);
        assert(eval(made.drop_first(), y) == 0);
    } else {
        let rest = times_linear(q.drop_first(), t, q[0]);
        let inner = eval(q.drop_first(), y);
        lemma_times_linear(q.drop_first(), t, q[0], y);
        assert(made.drop_first() =~= rest);
        lemma_division_step(y, t, q[0], inner);
        lemma_add_assoc(c, gf_mul(t, q[0]), gf_mul(y, eval(rest, y)));
        lemma_add_self_cancel(gf_mul(t, q[0]), gf_mul(y ^ t, eval(q, y)));
    }
}

/// Adding a term twice changes nothing.
proof fn lemma_add_self_cancel(a: u8, b: u8)
    by (bit_vector)
    ensures
        a ^ (a ^ b) == b,
{
}

proof fn lemma_moved_len(p: Seq<u8>, t: u8)
    ensures
        moved(p, t).len() == p.len(),
    decreases p.len(),
{
    if p.len() > 0 {
        lemma_moved_len(p.drop_first(), t);
        lemma_times_linear_len(moved(p.drop_first(), t), t, p[0]);
    }
}

/// The moved polynomial has at `y` the value of the polynomial at `y` + `t`.
proof fn lemma_moved(p: Seq<u8>, t: u8, y: u8)
    ensures
        eval(moved(p, t), y) == eval(p, y ^ t),
    decreases p.len(),
{
    if p.len() > 0 {
        lemma_moved(p.drop_first(), t, y);
        lemma_times_linear(moved(p.drop_first(), t), t, p[0], y);
    }
}

/// The sum of two points is 0 where they are the same, and there only.
proof fn lemma_shift_distinct(a: u8, b: u8, t: u8)
    by (bit_vector)
    ensures
        (a ^ t == b ^ t) == (a == b),
        (a ^ t == 0) == (a == t),
        0u8 ^ t == t,
{
}

/// Shards of one dealer at distinct points other than 0, as many as its
/// threshold or more, extend to the shard of the dealer at any other point
/// but 0.
pub proof fn lemma_extended_is_shard(dealer: DealerView, shards: Seq<ShardView>, t: u8)
    requires
        shards.len() >= 1,
        forall|i: int|
            0 <= i < dealer.polys.len() ==> 1 <= (#[trigger] dealer.polys[i]).len()
                <= shards.len(),
        forall|j: int|
            0 <= j < shards.len() ==> (#[trigger] shards[j]).x != 0 && shards[j]
                == dealer.shard_at(shards[j].x),
        distinct(points(shards)),
        t != 0,
        forall|j: int| 0 <= j < shards.len() ==> (#[trigger] shards[j]).x != t,
    ensures
        extended(shards, t) == Ok::<_, ShamirError>(dealer.shard_at(t)),
{
    let moved_shards = shifted(shards, t);
    let xs = points(moved_shards);
    assert forall|j: int| 0 <= j < moved_shards.len() implies (#[trigger] moved_shards[j]).x
        != 0 by {
        lemma_shift_distinct(shards[j].x, shards[j].x, t);
    }
    assert forall|i: int, j: int| 0 <= i < j < xs.len() implies xs[i] != xs[j] by {
        lemma_shift_distinct(shards[i].x, shards[j].x, t);
        assert(points(shards)[i] != points(shards)[j]);
    }
    let found = Seq::new(
        moved_shards[0].ys.len(),
        |i: int| interpolate(xs, values_at(moved_shards, i)),
    );
    assert forall|i: int| 0 <= i < dealer.polys.len() implies found[i] == dealer.shard_at(
        t,
    ).ys[i] by {
        let p = dealer.polys[i];
        let q = moved(p, t);
        lemma_moved_len(p, t);
        assert forall|j: int| 0 <= j < shards.len() implies values_at(moved_shards, i)[j]
            == evals(q, xs)[j] by {
            lemma_moved(p, t, shards[j].x ^ t);
            lemma_add_shift_back(shards[j].x, t);
        }
        assert(values_at(moved_shards, i) =~= evals(q, xs));
        lemma_interpolate(xs, q);
        lemma_moved(p, t, 0);
        lemma_shift_distinct(0, 0, t);
    }
    assert(found =~= dealer.shard_at(t).ys);
}

/// Adding a point twice gives the point back.
proof fn lemma_add_shift_back(a: u8, t: u8)
    by (bit_vector)
    ensures
        (a ^ t) ^ t == a,
{
}

} // verus!
