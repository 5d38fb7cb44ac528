//! The field of 256 elements: bytes as polynomials over the field of two
//! elements, modulo x^8 + x^4 + x^3 + x + 1. Addition is `^`.

use vstd::prelude::*;

verus! {

/// The product of `a` and x.
pub open spec fn gf_xtime(a: u8) -> u8 {
    (a << 1) ^ (if a & 0x80 != 0 {
        0x1bu8
    } else {
        0u8
    })
}

/// `a` where `c` has the bit `mask`, and 0 where it has not.
pub open spec fn pick(c: u8, mask: u8, a: u8) -> u8 {
    if c & mask != 0 {
        a
    } else {
        0
    }
}

/// The product of `a` and `b`: the sum of the products of `a` and the powers
/// of x that `b` holds.
#[verifier::opaque]
pub open spec fn gf_mul(a: u8, b: u8) -> u8 {
    let a1 = gf_xtime(a);
    let a2 = gf_xtime(a1);
    let a3 = gf_xtime(a2);
    let a4 = gf_xtime(a3);
    let a5 = gf_xtime(a4);
    let a6 = gf_xtime(a5);
    let a7 = gf_xtime(a6);
    pick(b, 1, a) ^ pick(b, 2, a1) ^ pick(b, 4, a2) ^ pick(b, 8, a3) ^ pick(b, 16, a4) ^ pick(
        b,
        32,
        a5,
    ) ^ pick(b, 64, a6) ^ pick(b, 128, a7)
}

/// The power 254 of `a`: the inverse of `a` where `a` is not 0, and 0 where
/// it is.
pub open spec fn gf_inv(a: u8) -> u8 {
    let a2 = gf_mul(a, a);
    let a4 = gf_mul(a2, a2);
    let a8 = gf_mul(a4, a4);
    let a16 = gf_mul(a8, a8);
    let a32 = gf_mul(a16, a16);
    let a64 = gf_mul(a32, a32);
    let a128 = gf_mul(a64, a64);
    gf_mul(a128, gf_mul(a64, gf_mul(a32, gf_mul(a16, gf_mul(a8, gf_mul(a4, a2))))))
}

/// The bit of `a` that leaves a byte when `a` is multiplied by x, and what
/// the product is with it.
proof fn lemma_high_bit(a: u8, high: u8)
    by (bit_vector)
    requires
        high == a >> 7,
    ensures
        high <= 1,
        high * 0x1b <= 0x1b,
        (a << 1) ^ ((high * 0x1b) as u8) == gf_xtime(a),
{
}

/// The bits of `b`, each as a number.
proof fn lemma_bits(b: u8)
    by (bit_vector)
    ensures
        (b & 1) <= 1 && ((b & 1) != 0) == (b & 1 != 0),
        ((b >> 1) & 1) <= 1 && (((b >> 1) & 1) != 0) == (b & 2 != 0),
        ((b >> 2) & 1) <= 1 && (((b >> 2) & 1) != 0) == (b & 4 != 0),
        ((b >> 3) & 1) <= 1 && (((b >> 3) & 1) != 0) == (b & 8 != 0),
        ((b >> 4) & 1) <= 1 && (((b >> 4) & 1) != 0) == (b & 16 != 0),
        ((b >> 5) & 1) <= 1 && (((b >> 5) & 1) != 0) == (b & 32 != 0),
        ((b >> 6) & 1) <= 1 && (((b >> 6) & 1) != 0) == (b & 64 != 0),
        ((b >> 7) & 1) <= 1 && (((b >> 7) & 1) != 0) == (b & 128 != 0),
{
}

/// A byte of ones for the bit 1, of zeros for the bit 0, as a mask.
proof fn lemma_mask(bit: u8, a: u8)
    by (bit_vector)
    requires
        bit <= 1,
    ensures
        bit * 0xff <= 0xff,
        ((bit * 0xff) as u8) & a == (if bit != 0 {
            a
        } else {
            0u8
        }),
{
}

/// Multiplies by x. No branch depends on the element.
pub fn xtime(a: u8) -> (r: u8)
    ensures
        r == gf_xtime(a),
{
    let high = a >> 7;
    proof {
        lemma_high_bit(a, high);
    }
    (a << 1) ^ (high * 0x1b)
}

/// `a` where `bit` is 1, and 0 where it is 0, without a branch.
fn masked(bit: u8, a: u8) -> (r: u8)
    requires
        bit <= 1,
    ensures
        r == (if bit != 0 {
            a
        } else {
            0u8
        }),
{
    proof {
        lemma_mask(bit, a);
    }
    (bit * 0xff) & a
}

/// Multiplies two elements of the field. No branch depends on the elements.
pub fn multiply(a: u8, b: u8) -> (r: u8)
    ensures
        r == gf_mul(a, b),
{
    reveal(gf_mul);
    proof {
        lemma_bits(b);
    }
    let a1 = xtime(a);
    let a2 = xtime(a1);
    let a3 = xtime(a2);
    let a4 = xtime(a3);
    let a5 = xtime(a4);
    let a6 = xtime(a5);
    let a7 = xtime(a6);
    masked(b & 1, a) ^ masked((b >> 1) & 1, a1) ^ masked((b >> 2) & 1, a2) ^ masked(
        (b >> 3) & 1,
        a3,
    ) ^ masked((b >> 4) & 1, a4) ^ masked((b >> 5) & 1, a5) ^ masked((b >> 6) & 1, a6) ^ masked(
        (b >> 7) & 1,
        a7,
    )
}

/// The inverse of an element of the field, and 0 for 0.
pub fn invert(a: u8) -> (r: u8)
    ensures
        r == gf_inv(a),
{
    let a2 = multiply(a, a);
    let a4 = multiply(a2, a2);
    let a8 = multiply(a4, a4);
    let a16 = multiply(a8, a8);
    let a32 = multiply(a16, a16);
    let a64 = multiply(a32, a32);
    let a128 = multiply(a64, a64);
    multiply(a128, multiply(a64, multiply(a32, multiply(a16, multiply(a8, multiply(a4, a2))))))
}

/// Addition is commutative.
pub proof fn lemma_add_comm(a: u8, b: u8)
    by (bit_vector)
    ensures
        a ^ b == b ^ a,
{
}

/// Addition is associative.
pub proof fn lemma_add_assoc(a: u8, b: u8, c: u8)
    by (bit_vector)
    ensures
        (a ^ b) ^ c == a ^ (b ^ c),
{
}

/// 0 is neutral in addition, and every element is its own negative.
pub proof fn lemma_add_zero(a: u8)
    by (bit_vector)
    ensures
        a ^ 0 == a,
        0 ^ a == a,
        a ^ a == 0,
{
}

/// Two elements are the same where their sum is 0.
pub proof fn lemma_add_eq(a: u8, b: u8)
    by (bit_vector)
    ensures
        (a ^ b == 0) == (a == b),
{
}

/// Two sums are added term by term.
pub proof fn lemma_add_interchange(a: u8, b: u8, c: u8, d: u8)
    by (bit_vector)
    ensures
        (a ^ b) ^ (c ^ d) == (a ^ c) ^ (b ^ d),
{
}

/// Multiplication is commutative.
pub proof fn lemma_mul_comm(a: u8, b: u8)
    by (bit_vector)
    ensures
        gf_mul(a, b) == gf_mul(b, a),
{
}

/// Multiplication distributes over addition.
pub proof fn lemma_mul_distrib(a: u8, b: u8, c: u8)
    by (bit_vector)
    ensures
        gf_mul(a, b ^ c) == gf_mul(a, b) ^ gf_mul(a, c),
{
}

/// A product with 0 is 0.
pub proof fn lemma_mul_zero(a: u8)
    by (bit_vector)
    ensures
        gf_mul(a, 0) == 0,
        gf_mul(0, a) == 0,
{
}

/// 1 is neutral in multiplication.
pub proof fn lemma_mul_one(a: u8)
    by (bit_vector)
    ensures
        gf_mul(a, 1) == a,
        gf_mul(1, a) == a,
{
}

/// Multiplication by x can be done before or after another multiplication.
pub proof fn lemma_mul_xtime(a: u8, b: u8)
    by (bit_vector)
    ensures
        gf_mul(a, gf_xtime(b)) == gf_xtime(gf_mul(a, b)),
{
}

/// A product as the sum of what the bits of the second factor pick.
proof fn lemma_mul_picks(a: u8, c: u8)
    ensures
        gf_mul(a, c) == pick(c, 1, a) ^ pick(c, 2, gf_xtime(a)) ^ pick(
            c,
            4,
            gf_xtime(gf_xtime(a)),
        ) ^ pick(c, 8, gf_xtime(gf_xtime(gf_xtime(a)))) ^ pick(
            c,
            16,
            gf_xtime(gf_xtime(gf_xtime(gf_xtime(a)))),
        ) ^ pick(c, 32, gf_xtime(gf_xtime(gf_xtime(gf_xtime(gf_xtime(a)))))) ^ pick(
            c,
            64,
            gf_xtime(gf_xtime(gf_xtime(gf_xtime(gf_xtime(gf_xtime(a)))))),
        ) ^ pick(c, 128, gf_xtime(gf_xtime(gf_xtime(gf_xtime(gf_xtime(gf_xtime(gf_xtime(a)))))))),
{
    reveal(gf_mul);
}

/// A factor goes into what a bit picks.
proof fn lemma_mul_pick(a: u8, c: u8, mask: u8, b: u8)
    ensures
        gf_mul(a, pick(c, mask, b)) == pick(c, mask, gf_mul(a, b)),
{
    lemma_mul_zero(a);
}

/// Multiplication is associative.
pub proof fn lemma_mul_assoc(a: u8, b: u8, c: u8)
    ensures
        gf_mul(gf_mul(a, b), c) == gf_mul(a, gf_mul(b, c)),
{
    let b0 = b;
    let b1 = gf_xtime(b0);
    let b2 = gf_xtime(b1);
    let b3 = gf_xtime(b2);
    let b4 = gf_xtime(b3);
    let b5 = gf_xtime(b4);
    let b6 = gf_xtime(b5);
    let b7 = gf_xtime(b6);
    lemma_mul_xtime(a, b0);
    lemma_mul_xtime(a, b1);
    lemma_mul_xtime(a, b2);
    lemma_mul_xtime(a, b3);
    lemma_mul_xtime(a, b4);
    lemma_mul_xtime(a, b5);
    lemma_mul_xtime(a, b6);
    let s0 = pick(c, 1, b0);
    let s1 = pick(c, 2, b1);
    let s2 = pick(c, 4, b2);
    let s3 = pick(c, 8, b3);
    let s4 = pick(c, 16, b4);
    let s5 = pick(c, 32, b5);
    let s6 = pick(c, 64, b6);
    let s7 = pick(c, 128, b7);
    lemma_mul_pick(a, c, 1, b0);
    lemma_mul_pick(a, c, 2, b1);
    lemma_mul_pick(a, c, 4, b2);
    lemma_mul_pick(a, c, 8, b3);
    lemma_mul_pick(a, c, 16, b4);
    lemma_mul_pick(a, c, 32, b5);
    lemma_mul_pick(a, c, 64, b6);
    lemma_mul_pick(a, c, 128, b7);
    let x1 = s0 ^ s1;
    let x2 = x1 ^ s2;
    let x3 = x2 ^ s3;
    let x4 = x3 ^ s4;
    let x5 = x4 ^ s5;
    let x6 = x5 ^ s6;
    let x7 = x6 ^ s7;
    lemma_mul_distrib(a, s0, s1);
    lemma_mul_distrib(a, x1, s2);
    lemma_mul_distrib(a, x2, s3);
    lemma_mul_distrib(a, x3, s4);
    lemma_mul_distrib(a, x4, s5);
    lemma_mul_distrib(a, x5, s6);
    lemma_mul_distrib(a, x6, s7);
    lemma_mul_picks(b, c);
    lemma_mul_picks(gf_mul(a, b), c);
}

/// The chain of products that leads from an element other than 0 to its
/// power 254 ends in the inverse of the element.
#[verifier::rlimit(100)]
proof fn lemma_inv_chain(
    a: u8,
    a2: u8,
    a4: u8,
    a8: u8,
    a16: u8,
    a32: u8,
    a64: u8,
    a128: u8,
    r1: u8,
    r2: u8,
    r3: u8,
    r4: u8,
    r5: u8,
    r6: u8,
)
    by (bit_vector)
    requires
        a != 0,
        a2 == gf_mul(a, a),
        a4 == gf_mul(a2, a2),
        a8 == gf_mul(a4, a4),
        a16 == gf_mul(a8, a8),
        a32 == gf_mul(a16, a16),
        a64 == gf_mul(a32, a32),
        a128 == gf_mul(a64, a64),
        r1 == gf_mul(a4, a2),
        r2 == gf_mul(a8, r1),
        r3 == gf_mul(a16, r2),
        r4 == gf_mul(a32, r3),
        r5 == gf_mul(a64, r4),
        r6 == gf_mul(a128, r5),
    ensures
        gf_mul(a, r6) == 1,
{
}

/// The product of an element other than 0 and its inverse is 1.
pub proof fn lemma_mul_inv(a: u8)
    requires
        a != 0,
    ensures
        gf_mul(a, gf_inv(a)) == 1,
        gf_mul(gf_inv(a), a) == 1,
        gf_inv(a) != 0,
{
    let a2 = gf_mul(a, a);
    let a4 = gf_mul(a2, a2);
    let a8 = gf_mul(a4, a4);
    let a16 = gf_mul(a8, a8);
    let a32 = gf_mul(a16, a16);
    let a64 = gf_mul(a32, a32);
    let a128 = gf_mul(a64, a64);
    let r1 = gf_mul(a4, a2);
    let r2 = gf_mul(a8, r1);
    let r3 = gf_mul(a16, r2);
    let r4 = gf_mul(a32, r3);
    let r5 = gf_mul(a64, r4);
    let r6 = gf_mul(a128, r5);
    lemma_inv_chain(a, a2, a4, a8, a16, a32, a64, a128, r1, r2, r3, r4, r5, r6);
    lemma_mul_comm(a, gf_inv(a));
    lemma_mul_zero(a);
}

/// Multiplication distributes over addition in the first factor too.
pub proof fn lemma_mul_distrib_left(a: u8, b: u8, c: u8)
    ensures
        gf_mul(a ^ b, c) == gf_mul(a, c) ^ gf_mul(b, c),
{
    lemma_mul_comm(a ^ b, c);
    lemma_mul_distrib(c, a, b);
    lemma_mul_comm(c, a);
    lemma_mul_comm(c, b);
}

/// An element other than 0 cancels against its inverse in a product of
/// five.
pub proof fn lemma_mul_cancel(u: u8, e: u8, r: u8, w: u8)
    requires
        u != 0,
    ensures
        gf_mul(gf_mul(u, e), gf_mul(gf_mul(r, gf_inv(u)), w)) == gf_mul(r, gf_mul(e, w)),
{
    let i = gf_inv(u);
    let x = gf_mul(gf_mul(r, i), w);
    // u (r i) = r
    lemma_mul_assoc(u, r, i);
    lemma_mul_comm(u, r);
    lemma_mul_assoc(r, u, i);
    lemma_mul_inv(u);
    lemma_mul_one(r);
    // u ((r i) w) = r w
    lemma_mul_assoc(u, gf_mul(r, i), w);
    // (u e) x = e (u x)
    lemma_mul_comm(u, e);
    lemma_mul_assoc(e, u, x);
    // e (r w) = r (e w)
    lemma_mul_assoc(e, r, w);
    lemma_mul_comm(e, r);
    lemma_mul_assoc(r, e, w);
}

/// Where the product of an element other than 0 and `t` is the element, `t`
/// is 1.
pub proof fn lemma_mul_cancel_one(c: u8, t: u8)
    requires
        c != 0,
        gf_mul(c, t) == c,
    ensures
        t == 1,
{
    lemma_mul_inv(c);
    lemma_mul_one(t);
    lemma_mul_assoc(gf_inv(c), c, t);
}

/// A sum with two equal terms is the third term.
pub proof fn lemma_add_cancel(a: u8, b: u8, m: u8)
    by (bit_vector)
    ensures
        a ^ ((b ^ a) ^ m) == b ^ m,
        (b ^ a) ^ (b ^ m) == a ^ m,
{
}

/// The step of the division of a polynomial by x + r.
pub proof fn lemma_division_step(x: u8, r: u8, e: u8, q: u8)
    ensures
        gf_mul(x, e ^ gf_mul(x ^ r, q)) == gf_mul(r, e) ^ gf_mul(x ^ r, e ^ gf_mul(x, q)),
{
    let m = gf_mul(x, gf_mul(x ^ r, q));
    lemma_mul_distrib(x, e, gf_mul(x ^ r, q));
    lemma_mul_distrib(x ^ r, e, gf_mul(x, q));
    lemma_mul_distrib_left(x, r, e);
    lemma_mul_assoc(x ^ r, x, q);
    lemma_mul_comm(x ^ r, x);
    lemma_mul_assoc(x, x ^ r, q);
    lemma_add_cancel(gf_mul(r, e), gf_mul(x, e), m);
}

} // verus!
