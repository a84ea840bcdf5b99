//! Pedersen commitments over the integers modulo the Mersenne prime
//! `p = 2^127 - 1`.
//!
//! ```text
//! C(v, r) = v * G + r * H   (mod p)
//! ```
//!
//! Commitments add up: `C(a, r1) + C(b, r2) = C(a + b, r1 + r2)  (mod p)`.

use vstd::arithmetic::div_mod::{
    lemma_fundamental_div_mod, lemma_fundamental_div_mod_converse, lemma_mod_equivalence,
    lemma_mod_multiples_vanish,
};
use vstd::prelude::*;

use crate::prime::law_invertible;

verus! {

/// The Mersenne prime `2^127 - 1`, the largest `i128`.
pub const P: i128 = 0x7fff_ffff_ffff_ffff_ffff_ffff_ffff_ffff;

/// The same modulus as an unsigned number.
pub const P_U128: u128 = 0x7fff_ffff_ffff_ffff_ffff_ffff_ffff_ffff;

/// First public generator: the weight of the committed value.
pub const G: i128 = 5;

/// Second public generator: the weight of the blinding factor.
pub const H: i128 = 7;

/// One whole, in basis points.
pub const BPS_SCALE: i128 = 10_000;

/// `x` is the inverse of `a` modulo `m`.
pub open spec fn is_inverse(x: int, a: int, m: int) -> bool {
    0 <= x < m && (a * x) % m == 1int % m
}

/// `a` has an inverse modulo `m`.
pub open spec fn invertible(a: int, m: int) -> bool {
    exists|x: int| is_inverse(x, a, m)
}

/// The inverse of `a` modulo `m`, where there is one.
pub open spec fn inverse(a: int, m: int) -> int {
    choose|x: int| is_inverse(x, a, m)
}

/// The number that the bits of a signed commitment spell when they are read as
/// unsigned.
pub open spec fn as_unsigned(c: int) -> int {
    if c < 0 {
        c + 0x1_0000_0000_0000_0000_0000_0000_0000_0000
    } else {
        c
    }
}

/// `value * G + blinding * H` modulo `P`.
pub open spec fn commitment(value: int, blinding: int) -> int {
    (value * G + blinding * H) % (P as int)
}

/// `c * scalar / scale` in the field, for an invertible `scale`.
pub open spec fn scaled(c: int, scalar: int, scale: int) -> int {
    (c * scalar * inverse(scale, P as int)) % (P as int)
}

/// Reduces an unsigned number modulo `2^127 - 1` by adding its top bit to the
/// rest.
pub fn reduce_u128(x: u128) -> (r: u128)
    ensures
        r == x % P_U128,
        r < P_U128,
{
    let low: u128 = x & P_U128;
    let high: u128 = x >> 127;
    assert(low == x % 0x8000_0000_0000_0000_0000_0000_0000_0000u128) by (bit_vector)
        requires
            low == x & 0x7fff_ffff_ffff_ffff_ffff_ffff_ffff_ffffu128,
    ;
    assert(high == x / 0x8000_0000_0000_0000_0000_0000_0000_0000u128) by (bit_vector)
        requires
            high == x >> 127,
    ;
    let mut val: u128 = low + high;
    if val >= P_U128 {
        val = val - P_U128;
    }
    val
}

/// Multiplies modulo `P` without leaving 128 bits.
pub fn mod_mul(a: i128, b: i128, p: i128) -> (r: i128)
    requires
        p == P,
    ensures
        r == (a * b) % (P as int),
        0 <= r < P,
{
    let ghost (a0, b0) = (a as int, b as int);
    let a: u128 = rem_p(a);
    let b: u128 = rem_p(b);

    let a_lo: u128 = a & 0xFFFF_FFFF_FFFF_FFFF;
    let a_hi: u128 = a >> 64;
    let b_lo: u128 = b & 0xFFFF_FFFF_FFFF_FFFF;
    let b_hi: u128 = b >> 64;
    proof {
        lemma_split_64(a);
        lemma_split_64(b);
        assert(a_lo * b_lo <= 0xFFFF_FFFF_FFFF_FFFF * 0xFFFF_FFFF_FFFF_FFFF) by (nonlinear_arith)
            requires
                0 <= a_lo <= 0xFFFF_FFFF_FFFF_FFFF,
                0 <= b_lo <= 0xFFFF_FFFF_FFFF_FFFF,
        ;
        assert(a_lo * b_hi <= 0xFFFF_FFFF_FFFF_FFFF * 0x7FFF_FFFF_FFFF_FFFF) by (nonlinear_arith)
            requires
                0 <= a_lo <= 0xFFFF_FFFF_FFFF_FFFF,
                0 <= b_hi <= 0x7FFF_FFFF_FFFF_FFFF,
        ;
        assert(a_hi * b_lo <= 0x7FFF_FFFF_FFFF_FFFF * 0xFFFF_FFFF_FFFF_FFFF) by (nonlinear_arith)
            requires
                0 <= a_hi <= 0x7FFF_FFFF_FFFF_FFFF,
                0 <= b_lo <= 0xFFFF_FFFF_FFFF_FFFF,
        ;
        assert(a_hi * b_hi <= 0x7FFF_FFFF_FFFF_FFFF * 0x7FFF_FFFF_FFFF_FFFF) by (nonlinear_arith)
            requires
                0 <= a_hi <= 0x7FFF_FFFF_FFFF_FFFF,
                0 <= b_hi <= 0x7FFF_FFFF_FFFF_FFFF,
        ;
    }

    let term0: u128 = a_lo * b_lo;
    let term1_1: u128 = a_lo * b_hi;
    let term1_2: u128 = a_hi * b_lo;
    let term2: u128 = a_hi * b_hi;

    let r0: u128 = reduce_u128(term0);

    let r1_1: u128 = reduce_u128(term1_1);
    let r1_2: u128 = reduce_u128(term1_2);
    let r1: u128 = reduce_u128(r1_1 + r1_2);

    let r1_lo: u128 = r1 & 0x7FFF_FFFF_FFFF_FFFF;
    let r1_hi: u128 = r1 >> 63;
    proof {
        lemma_split_63(r1);
    }
    let r1_scaled: u128 = reduce_u128((r1_lo << 64) + r1_hi);

    let r2: u128 = reduce_u128(term2);
    assert(r2 << 1 == 2 * r2) by (bit_vector)
        requires
            r2 < 0x7fff_ffff_ffff_ffff_ffff_ffff_ffff_ffffu128,
    ;
    let r2_scaled: u128 = reduce_u128(r2 << 1);

    let sum1: u128 = reduce_u128(r0 + r1_scaled);
    let total: u128 = reduce_u128(sum1 + r2_scaled);
    proof {
        lemma_product_of_halves(a as int, b as int, a_hi as int, a_lo as int, b_hi as int, b_lo as int);
        lemma_recombine(
            a * b,
            term0 as int,
            term1_1 as int,
            term1_2 as int,
            term2 as int,
            r1_hi as int,
            r1_lo as int,
            total as int,
        );
        lemma_mul_mod_both(a0, b0, P as int);
    }
    total as i128
}

/// The remainder of `x` modulo `P`, as an unsigned number.
fn rem_p(x: i128) -> (r: u128)
    ensures
        r == x as int % P as int,
        r < P_U128,
{
    x.checked_rem_euclid(P).unwrap() as u128
}

proof fn lemma_split_64(x: u128)
    requires
        x < P_U128,
    ensures
        x == (x >> 64) * 0x1_0000_0000_0000_0000 + (x & 0xFFFF_FFFF_FFFF_FFFF),
        (x >> 64) <= 0x7FFF_FFFF_FFFF_FFFF,
        (x & 0xFFFF_FFFF_FFFF_FFFF) <= 0xFFFF_FFFF_FFFF_FFFF,
{
    let hi: u128 = x >> 64;
    let lo: u128 = x & 0xFFFF_FFFF_FFFF_FFFF;
    assert(hi == x / 0x1_0000_0000_0000_0000u128) by (bit_vector)
        requires
            hi == x >> 64,
    ;
    assert(lo == x % 0x1_0000_0000_0000_0000u128) by (bit_vector)
        requires
            lo == x & 0xFFFF_FFFF_FFFF_FFFFu128,
    ;
}

proof fn lemma_split_63(x: u128)
    requires
        x < P_U128,
    ensures
        x == (x >> 63) * 0x8000_0000_0000_0000 + (x & 0x7FFF_FFFF_FFFF_FFFF),
        (x >> 63) <= 0xFFFF_FFFF_FFFF_FFFF,
        (x & 0x7FFF_FFFF_FFFF_FFFF) <= 0x7FFF_FFFF_FFFF_FFFF,
        (x & 0x7FFF_FFFF_FFFF_FFFF) << 64 == (x & 0x7FFF_FFFF_FFFF_FFFF) * 0x1_0000_0000_0000_0000,
{
    let hi: u128 = x >> 63;
    let lo: u128 = x & 0x7FFF_FFFF_FFFF_FFFF;
    assert(hi == x / 0x8000_0000_0000_0000u128) by (bit_vector)
        requires
            hi == x >> 63,
    ;
    assert(lo == x % 0x8000_0000_0000_0000u128) by (bit_vector)
        requires
            lo == x & 0x7FFF_FFFF_FFFF_FFFFu128,
    ;
    assert(lo << 64 == lo * 0x1_0000_0000_0000_0000u128) by (bit_vector)
        requires
            lo <= 0x7FFF_FFFF_FFFF_FFFFu128,
    ;
}

proof fn lemma_product_of_halves(a: int, b: int, a_hi: int, a_lo: int, b_hi: int, b_lo: int)
    requires
        a == a_hi * 0x1_0000_0000_0000_0000 + a_lo,
        b == b_hi * 0x1_0000_0000_0000_0000 + b_lo,
    ensures
        a * b == a_lo * b_lo + (a_lo * b_hi + a_hi * b_lo) * 0x1_0000_0000_0000_0000 + (a_hi * b_hi)
            * 0x1_0000_0000_0000_0000_0000_0000_0000_0000,
{
    assert(a * b == a_lo * b_lo + (a_lo * b_hi + a_hi * b_lo) * 0x1_0000_0000_0000_0000 + (a_hi
        * b_hi) * 0x1_0000_0000_0000_0000_0000_0000_0000_0000) by (nonlinear_arith)
        requires
            a == a_hi * 0x1_0000_0000_0000_0000 + a_lo,
            b == b_hi * 0x1_0000_0000_0000_0000 + b_lo,
    ;
}

/// The reduced partial products, scaled by what `2^64` and `2^128` are modulo
/// `P`, add up to the product.
proof fn lemma_recombine(
    ab: int,
    t0: int,
    t11: int,
    t12: int,
    t2: int,
    r1_hi: int,
    r1_lo: int,
    total: int,
)
    requires
        ab == t0 + (t11 + t12) * 0x1_0000_0000_0000_0000 + t2
            * 0x1_0000_0000_0000_0000_0000_0000_0000_0000,
        (t11 % (P as int) + t12 % (P as int)) % (P as int) == r1_hi * 0x8000_0000_0000_0000 + r1_lo,
        total == ((t0 % (P as int) + (r1_lo * 0x1_0000_0000_0000_0000 + r1_hi) % (P as int)) % (
        P as int) + (2 * (t2 % (P as int))) % (P as int)) % (P as int),
    ensures
        total == ab % (P as int),
{
    let p = P as int;
    let (k0, r0) = (t0 / p, t0 % p);
    let (k11, r11) = (t11 / p, t11 % p);
    let (k12, r12) = (t12 / p, t12 % p);
    let (k1, r1) = ((r11 + r12) / p, (r11 + r12) % p);
    let x1 = r1_lo * 0x1_0000_0000_0000_0000 + r1_hi;
    let (k1s, r1s) = (x1 / p, x1 % p);
    let (k2, r2) = (t2 / p, t2 % p);
    let (k2s, r2s) = ((2 * r2) / p, (2 * r2) % p);
    let (ks, s1) = ((r0 + r1s) / p, (r0 + r1s) % p);
    let kt = (s1 + r2s) / p;
    lemma_fundamental_div_mod(t0, p);
    lemma_fundamental_div_mod(t11, p);
    lemma_fundamental_div_mod(t12, p);
    lemma_fundamental_div_mod(r11 + r12, p);
    lemma_fundamental_div_mod(x1, p);
    lemma_fundamental_div_mod(t2, p);
    lemma_fundamental_div_mod(2 * r2, p);
    lemma_fundamental_div_mod(r0 + r1s, p);
    lemma_fundamental_div_mod(s1 + r2s, p);
    let q = k0 + (k11 + k12 + k1) * 0x1_0000_0000_0000_0000 + r1_hi + k1s + 2 * t2 + 2 * k2 + k2s
        + ks + kt;
    assert(r1 * 0x1_0000_0000_0000_0000 == p * (r1_hi + k1s) + r1s);
    assert((t11 + t12) * 0x1_0000_0000_0000_0000 == p * ((k11 + k12 + k1) * 0x1_0000_0000_0000_0000)
        + r1 * 0x1_0000_0000_0000_0000);
    assert(t2 * 0x1_0000_0000_0000_0000_0000_0000_0000_0000 == p * (2 * t2 + 2 * k2 + k2s) + r2s);
    assert(ab == q * p + total);
    lemma_fundamental_div_mod_converse(ab, p, q, total);
}

/// Reducing the factors first does not change a product modulo `m`.
pub proof fn lemma_mul_mod_both(a: int, b: int, m: int)
    requires
        m > 0,
    ensures
        ((a % m) * (b % m)) % m == (a * b) % m,
{
    vstd::arithmetic::div_mod::lemma_mul_mod_noop(a, b, m);
}

/// Two inverses of one number are the same number.
pub proof fn lemma_inverse_unique(a: int, m: int, x: int, y: int)
    requires
        is_inverse(x, a, m),
        is_inverse(y, a, m),
    ensures
        x == y,
{
    // x = x * (a * y) = (a * x) * y = y  (mod m)
    lemma_mul_mod_both(a * x, y, m);
    lemma_mul_mod_both(1, y, m);
    lemma_mul_mod_both(a * y, x, m);
    lemma_mul_mod_both(1, x, m);
    assert((a * x) * y == (a * y) * x) by (nonlinear_arith);
    vstd::arithmetic::div_mod::lemma_small_mod(x as nat, m as nat);
    vstd::arithmetic::div_mod::lemma_small_mod(y as nat, m as nat);
}

/// An inverse that was found is the inverse.
pub proof fn lemma_inverse_is(a: int, m: int, x: int)
    requires
        is_inverse(x, a, m),
    ensures
        invertible(a, m),
        inverse(a, m) == x,
{
    lemma_inverse_unique(a, m, x, inverse(a, m));
}

/// A whole in basis points has an inverse modulo `P`.
pub proof fn lemma_bps_scale_invertible()
    ensures
        invertible(BPS_SCALE as int, P as int),
        inverse(BPS_SCALE as int, P as int) == 0x0450_4816_f006_8db8_bac7_10cb_295e_9e1bint,
{
    assert(is_inverse(0x0450_4816_f006_8db8_bac7_10cb_295e_9e1bint, BPS_SCALE as int, P as int));
    lemma_inverse_is(BPS_SCALE as int, P as int, 0x0450_4816_f006_8db8_bac7_10cb_295e_9e1bint);
}

/// The extended Euclidean algorithm: the inverse of `a` modulo `m`, if there
/// is one.
pub fn find_inverse(a: i128, m: i128) -> (r: Option<i128>)
    requires
        m > 0,
    ensures
        r is Some <==> invertible(a as int, m as int),
        r matches Some(x) ==> x == inverse(a as int, m as int) && is_inverse(
            x as int,
            a as int,
            m as int,
        ),
{
    let ghost a0 = a as int;
    let a: i128 = a.checked_rem_euclid(m).unwrap();
    assert(a == a0 % (m as int));
    let mut old_r: i128 = a;
    let mut r: i128 = m;
    let mut old_s: i128 = 1;
    let mut s: i128 = 0;
    // old_r == old_s * a + old_t * m and r == s * a + t * m;
    // a == u * old_r + v * r and m == w * old_r + z * r.
    let ghost mut old_t: int = 0;
    let ghost mut t: int = 1;
    let ghost mut u: int = 1;
    let ghost mut v: int = 0;
    let ghost mut w: int = 0;
    let ghost mut z: int = 1;

    while r != 0
        invariant
            m > 0,
            0 <= a < m,
            0 <= old_r <= m,
            0 <= r <= m,
            old_r != 0 || r != 0,
            old_r == old_s * a + old_t * m,
            r == s * a + t * m,
            a == u * old_r + v * r,
            m == w * old_r + z * r,
            magnitude(s as int) * old_r + magnitude(old_s as int) * r == m,
            (s <= 0 && old_s >= 0) || (s >= 0 && old_s <= 0),
        decreases r,
    {
        let q: i128 = old_r / r;
        proof {
            lemma_euclid_step(a as int, m as int, old_r as int, r as int, old_s as int, s as int);
            lemma_euclid_coefficients(a as int, m as int, old_r as int, r as int, q as int,
                old_s as int, s as int, old_t, t, u, v, w, z);
        }
        let tmp_r: i128 = r;
        r = old_r - q * r;
        old_r = tmp_r;

        let tmp_s: i128 = s;
        s = old_s - q * s;
        old_s = tmp_s;
        proof {
            let (next_t, next_u, next_w) = (old_t - q * t, u * q + v, w * q + z);
            old_t = t;
            t = next_t;
            v = u;
            u = next_u;
            z = w;
            w = next_w;
        }
    }

    if old_r != 1 {
        proof {
            if invertible(a0, m as int) {
                lemma_common_factor(a0, a as int, m as int, old_r as int, u, w, inverse(a0, m as int));
            }
        }
        return None;
    }
    let x: i128 = old_s.checked_rem_euclid(m).unwrap();
    proof {
        lemma_bezout_inverse(a0, a as int, m as int, old_s as int, old_t, x as int);
        lemma_inverse_is(a0, m as int, x as int);
    }
    Some(x)
}

spec fn magnitude(x: int) -> int {
    if x < 0 {
        -x
    } else {
        x
    }
}

/// One division step keeps the balance of the coefficients, so that none of
/// them outgrows the modulus.
proof fn lemma_euclid_step(a: int, m: int, old_r: int, r: int, old_s: int, s: int)
    requires
        m <= i128::MAX,
        0 <= old_r <= m,
        0 < r <= m,
        magnitude(s) * old_r + magnitude(old_s) * r == m,
        (s <= 0 && old_s >= 0) || (s >= 0 && old_s <= 0),
    ensures
        ({
            let q = old_r / r;
            let next_r = old_r - q * r;
            let next_s = old_s - q * s;
            &&& 0 <= q * r <= old_r
            &&& 0 <= next_r < r
            &&& magnitude(q * s) <= m
            &&& magnitude(next_s) <= m
            &&& magnitude(next_s) * r + magnitude(s) * next_r == m
            &&& (next_s <= 0 && s >= 0) || (next_s >= 0 && s <= 0)
        }),
{
    let q = old_r / r;
    let next_r = old_r - q * r;
    let next_s = old_s - q * s;
    lemma_fundamental_div_mod(old_r, r);
    assert(r * q == q * r) by (nonlinear_arith);
    assert(q >= 0) by (nonlinear_arith)
        requires
            r * q + old_r % r == old_r,
            0 <= old_r,
            0 <= old_r % r < r,
            0 < r,
    ;
    assert(s >= 0 ==> q * s >= 0) by (nonlinear_arith)
        requires
            q >= 0,
    ;
    assert(s <= 0 ==> q * s <= 0) by (nonlinear_arith)
        requires
            q >= 0,
    ;
    assert(magnitude(q * s) == q * magnitude(s)) by (nonlinear_arith)
        requires
            q >= 0,
            s >= 0 ==> q * s >= 0,
            s <= 0 ==> q * s <= 0,
    ;
    assert(magnitude(next_s) == magnitude(old_s) + magnitude(q * s));
    let (x, y) = (magnitude(old_s), magnitude(s));
    assert((x + q * y) * r + y * (old_r - q * r) == y * old_r + x * r) by (nonlinear_arith);
    assert((x + q * y) * r >= x + q * y) by (nonlinear_arith)
        requires
            x + q * y >= 0,
            r >= 1,
    ;
    assert(y * (old_r - q * r) >= 0) by (nonlinear_arith)
        requires
            y >= 0,
            old_r - q * r >= 0,
    ;
}

proof fn lemma_euclid_coefficients(
    a: int,
    m: int,
    old_r: int,
    r: int,
    q: int,
    old_s: int,
    s: int,
    old_t: int,
    t: int,
    u: int,
    v: int,
    w: int,
    z: int,
)
    requires
        old_r == old_s * a + old_t * m,
        r == s * a + t * m,
        a == u * old_r + v * r,
        m == w * old_r + z * r,
    ensures
        old_r - q * r == (old_s - q * s) * a + (old_t - q * t) * m,
        a == (u * q + v) * r + u * (old_r - q * r),
        m == (w * q + z) * r + w * (old_r - q * r),
{
    assert(old_r - q * r == (old_s - q * s) * a + (old_t - q * t) * m) by (nonlinear_arith)
        requires
            old_r == old_s * a + old_t * m,
            r == s * a + t * m,
    ;
    assert((u * q + v) * r + u * (old_r - q * r) == u * old_r + v * r) by (nonlinear_arith);
    assert((w * q + z) * r + w * (old_r - q * r) == w * old_r + z * r) by (nonlinear_arith);
}

/// A number that shares a factor with the modulus has no inverse.
proof fn lemma_common_factor(a0: int, a: int, m: int, d: int, u: int, w: int, x: int)
    requires
        m > 0,
        d >= 0,
        a == a0 % m,
        a == u * d,
        m == w * d,
        is_inverse(x, a0, m),
    ensures
        d == 1,
{
    lemma_mul_mod_both(a0, x, m);
    vstd::arithmetic::div_mod::lemma_small_mod(x as nat, m as nat);
    assert((a * x) % m == 1int % m);
    assert(d > 0) by (nonlinear_arith)
        requires
            m == w * d,
            m > 0,
            d >= 0,
    ;
    if m == 1 {
        assert(d == 1) by (nonlinear_arith)
            requires
                1 == w * d,
                d > 0,
        ;
    } else {
        let k = (a * x) / m;
        lemma_fundamental_div_mod(a * x, m);
        vstd::arithmetic::div_mod::lemma_small_mod(1, m as nat);
        assert(m * k + 1 == a * x);
        assert(d * (u * x - w * k) == 1) by (nonlinear_arith)
            requires
                m * k + 1 == a * x,
                a == u * d,
                m == w * d,
        ;
        assert(d == 1) by (nonlinear_arith)
            requires
                d * (u * x - w * k) == 1,
                d > 0,
        ;
    }
}

/// Bezout's identity gives the inverse.
proof fn lemma_bezout_inverse(a0: int, a: int, m: int, s: int, t: int, x: int)
    requires
        m > 0,
        a == a0 % m,
        1 == s * a + t * m,
        x == s % m,
    ensures
        is_inverse(x, a0, m),
{
    assert(a * s == 1 + m * (-t)) by (nonlinear_arith)
        requires
            1 == s * a + t * m,
    ;
    lemma_mod_multiples_vanish(-t, 1, m);
    assert(m * (-t) + 1 == a * s);
    lemma_mul_mod_both(a0, s, m);
    vstd::arithmetic::div_mod::lemma_mul_mod_noop_right(a, s, m);
    vstd::arithmetic::div_mod::lemma_mul_mod_noop_left(a0, s, m);
    vstd::arithmetic::div_mod::lemma_mul_mod_noop_right(a0, s, m);
    vstd::arithmetic::div_mod::lemma_mod_division_less_than_divisor(s, m);
}

/// The inverse of `a` modulo `m`.
pub fn mod_inverse(a: i128, m: i128) -> (r: i128)
    requires
        m > 0,
        invertible(a as int, m as int),
    ensures
        r == inverse(a as int, m as int),
        is_inverse(r as int, a as int, m as int),
{
    find_inverse(a, m).unwrap()
}

/// The Pedersen commitment of `value` under `blinding`. Both are secrets of
/// the issuer; only the commitment is published.
pub fn commit(value: i128, blinding: i128) -> (c: i128)
    ensures
        c == commitment(value as int, blinding as int),
        0 <= c < P,
{
    let vg: i128 = mod_mul(value, G, P);
    let rh: i128 = mod_mul(blinding, H, P);
    add_commitments(vg, rh)
}

/// Homomorphic addition of two commitments, each taken by its bits as an
/// unsigned number.
pub fn add_commitments(c1: i128, c2: i128) -> (c: i128)
    requires
        as_unsigned(c1 as int) + as_unsigned(c2 as int) <= u128::MAX,
    ensures
        c == (as_unsigned(c1 as int) + as_unsigned(c2 as int)) % (P as int),
        0 <= c < P,
{
    let sum: u128 = unsigned_bits(c1) + unsigned_bits(c2);
    reduce_u128(sum) as i128
}

/// The bits of `c`, read as an unsigned number.
pub fn unsigned_bits(c: i128) -> (r: u128)
    ensures
        r == as_unsigned(c as int),
{
    let r: u128 = #[verifier::truncate]
    (c as u128);
    assert(c < 0 ==> r == c + 0x1_0000_0000_0000_0000_0000_0000_0000_0000) by (bit_vector)
        requires
            r == c as u128,
    ;
    r
}

/// Scales a commitment by the rational factor `scalar / scale`: the share of a
/// tier that gets `share_bps / 10_000` of a total, for instance. The modulus
/// must not divide the scale.
pub fn scale_commitment(c: i128, scalar: i128, scale: i128) -> (r: i128)
    requires
        scale as int % (P as int) != 0,
    ensures
        r == scaled(c as int, scalar as int, scale as int),
        0 <= r < P,
{
    proof {
        law_invertible(scale as int);
    }
    let product: i128 = mod_mul(c, scalar, P);
    let inv: i128 = mod_inverse(scale, P);
    proof {
        vstd::arithmetic::div_mod::lemma_mul_mod_noop_left(c * scalar, inv as int, P as int);
    }
    mod_mul(product, inv, P)
}

/// Whether `(value, blinding)` opens `commitment`.
pub fn verify(commitment: i128, value: i128, blinding: i128) -> (r: bool)
    ensures
        r == (commitment == self::commitment(value as int, blinding as int)),
{
    commit(value, blinding) == commitment
}

/// Commitments are homomorphic: the sum of two commitments is the commitment
/// of the summed values under the summed blinding factors.
pub proof fn law_commitments_add_up(a: int, r1: int, b: int, r2: int)
    ensures
        (commitment(a, r1) + commitment(b, r2)) % (P as int) == commitment(a + b, r1 + r2),
{
}

/// An invertible factor can be cancelled modulo `m`.
proof fn lemma_cancel_factor(g: int, x: int, y: int, c: int, m: int, inv: int)
    requires
        is_inverse(inv, g, m),
    ensures
        (x * g + c) % m == (y * g + c) % m <==> x % m == y % m,
{
    let d = x - y;
    lemma_mod_equivalence(x * g + c, y * g + c, m);
    lemma_mod_equivalence(x, y, m);
    assert((x * g + c) - (y * g + c) == d * g) by (nonlinear_arith)
        requires
            d == x - y,
    ;
    // d * g = 0 gives d = (d * g) * inv = 0, and d = 0 gives d * g = 0.
    lemma_mul_mod_both(d * g, inv, m);
    lemma_mul_mod_both(d, g * inv, m);
    lemma_mul_mod_both(d, 1, m);
    lemma_mul_mod_both(d, g, m);
    lemma_mul_mod_both(0, inv, m);
    lemma_mul_mod_both(0, g, m);
    assert((d * g) * inv == d * (g * inv)) by (nonlinear_arith);
    assert(0int % m == 0);
    assert(0int * (g % m) == 0 && 0int * (inv % m) == 0) by (nonlinear_arith);
}

/// Under one blinding factor a commitment is opened by one value only, and for
/// one value by one blinding factor only, up to multiples of `P`.
pub proof fn law_openings_are_bound(value: int, blinding: int, other: int)
    ensures
        commitment(value, blinding) == commitment(other, blinding) <==> value % (P as int) == other
            % (P as int),
        commitment(value, blinding) == commitment(value, other) <==> blinding % (P as int) == other
            % (P as int),
{
    let (inv_g, inv_h) = (0x33333333333333333333333333333333int, 0x6db6db6db6db6db6db6db6db6db6db6dint);
    assert(is_inverse(inv_g, G as int, P as int));
    assert(is_inverse(inv_h, H as int, P as int));
    lemma_cancel_factor(G as int, value, other, blinding * H, P as int, inv_g);
    lemma_cancel_factor(H as int, blinding, other, value * G, P as int, inv_h);
}

/// Scaled parts of a commitment add up to the part scaled by the sum.
pub proof fn law_scaled_parts_add_up(c: int, x: int, y: int, scale: int)
    ensures
        (scaled(c, x, scale) + scaled(c, y, scale)) % (P as int) == scaled(c, x + y, scale),
{
    let inv = inverse(scale, P as int);
    assert(c * x * inv + c * y * inv == c * (x + y) * inv) by (nonlinear_arith);
    vstd::arithmetic::div_mod::lemma_add_mod_noop(c * x * inv, c * y * inv, P as int);
}

/// The whole of a commitment is the commitment itself, reduced.
pub proof fn law_scaled_whole(c: int, scale: int)
    requires
        invertible(scale, P as int),
    ensures
        scaled(c, scale, scale) == c % (P as int),
{
    let inv = inverse(scale, P as int);
    assert(c * scale * inv == c * (scale * inv)) by (nonlinear_arith);
    lemma_mul_mod_both(c, scale * inv, P as int);
    lemma_mul_mod_both(c, 1, P as int);
}

/// A full split sums back to the total: for every scale that the modulus does
/// not divide, two parts whose shares make up the scale add up to the
/// commitment that was split.
pub proof fn law_full_split_sums_back(c: int, a: int, b: int, scale: int)
    requires
        0 <= c < P,
        scale % (P as int) != 0,
        a + b == scale,
    ensures
        0 <= scaled(c, a, scale) < P,
        0 <= scaled(c, b, scale) < P,
        (as_unsigned(scaled(c, a, scale)) + as_unsigned(scaled(c, b, scale))) % (P as int) == c,
{
    law_invertible(scale);
    law_scaled_parts_add_up(c, a, b, scale);
    law_scaled_whole(c, scale);
    vstd::arithmetic::div_mod::lemma_small_mod(c as nat, P as nat);
}

/// Scaling a commitment scales what it opens to: where the factor divides
/// value and blinding exactly, the result is the commitment of the quotients.
pub proof fn law_scaled_opening(value: int, blinding: int, scalar: int, scale: int, v: int, b: int)
    requires
        invertible(scale, P as int),
        value * scalar == v * scale,
        blinding * scalar == b * scale,
    ensures
        scaled(commitment(value, blinding), scalar, scale) == commitment(v, b),
{
    let m = P as int;
    let inv = inverse(scale, m);
    let c = value * G + blinding * H;
    let d = v * G + b * H;
    assert(c * scalar * inv == d * (scale * inv)) by (nonlinear_arith)
        requires
            c == value * G + blinding * H,
            d == v * G + b * H,
            value * scalar == v * scale,
            blinding * scalar == b * scale,
    {
        assert(c * scalar == (value * scalar) * G + (blinding * scalar) * H);
        assert(d * scale == (v * scale) * G + (b * scale) * H);
        assert(d * (scale * inv) == (d * scale) * inv);
    }
    assert((c % m) * scalar * inv == (c % m) * (scalar * inv)) by (nonlinear_arith);
    assert(c * scalar * inv == c * (scalar * inv)) by (nonlinear_arith);
    vstd::arithmetic::div_mod::lemma_mul_mod_noop_left(c, scalar * inv, m);
    lemma_mul_mod_both(d, scale * inv, m);
    lemma_mul_mod_both(d, 1, m);
}

/// A commitment is five times the value and seven times the blinding factor,
/// reduced modulo `2^127 - 1`.
pub proof fn law_commitment_weighs(value: int, blinding: int)
    ensures
        0 <= commitment(value, blinding) < 0x7fff_ffff_ffff_ffff_ffff_ffff_ffff_ffffint,
        (5 * value + 7 * blinding - commitment(value, blinding))
            % 0x7fff_ffff_ffff_ffff_ffff_ffff_ffff_ffffint == 0,
{
    let x = value * 5 + blinding * 7;
    let m = 0x7fff_ffff_ffff_ffff_ffff_ffff_ffff_ffffint;
    lemma_fundamental_div_mod(x, m);
    vstd::arithmetic::div_mod::lemma_mod_multiples_basic(x / m, m);
}

/// A scaled commitment solves for the scaling: the scale times the result is
/// the scalar times the commitment, in the field.
pub proof fn law_scaled_solves(c: int, scalar: int, scale: int)
    requires
        scale % 0x7fff_ffff_ffff_ffff_ffff_ffff_ffff_ffffint != 0,
    ensures
        0 <= scaled(c, scalar, scale) < 0x7fff_ffff_ffff_ffff_ffff_ffff_ffff_ffffint,
        (scale * scaled(c, scalar, scale) - c * scalar)
            % 0x7fff_ffff_ffff_ffff_ffff_ffff_ffff_ffffint == 0,
{
    let m = P as int;
    law_invertible(scale);
    let inv = inverse(scale, m);
    assert(is_inverse(inv, scale, m));
    let x = c * scalar * inv;
    let y = c * scalar;
    // scale * (y * inv mod m) = scale * (y * inv) = y * (scale * inv) = y
    vstd::arithmetic::div_mod::lemma_mul_mod_noop_right(scale, x, m);
    assert(scale * x == y * (scale * inv)) by (nonlinear_arith)
        requires
            x == y * inv,
    ;
    lemma_mul_mod_both(y, scale * inv, m);
    lemma_mul_mod_both(y, 1, m);
    lemma_mod_equivalence(scale * (x % m), y, m);
}

/// An inverse is a number below the modulus whose product with `a` leaves one;
/// `a` is invertible exactly where there is such a number, and it is the only
/// one.
pub proof fn law_inverse_inverts(a: int, m: int, x: int)
    requires
        m > 0,
    ensures
        invertible(a, m) ==> 0 <= inverse(a, m) < m && (a * inverse(a, m)) % m == 1int % m,
        0 <= x < m && (a * x) % m == 1int % m ==> invertible(a, m) && inverse(a, m) == x,
{
    if 0 <= x < m && (a * x) % m == 1int % m {
        lemma_inverse_is(a, m, x);
    }
}

/// The bits of a negative commitment, read as unsigned, spell the number that
/// is higher by `2^128`.
pub proof fn law_unsigned_bits(c: i128)
    ensures
        0 <= as_unsigned(c as int) <= 0xffff_ffff_ffff_ffff_ffff_ffff_ffff_ffffint,
        as_unsigned(c as int) == c || as_unsigned(c as int) == c
            + 0x1_0000_0000_0000_0000_0000_0000_0000_0000int,
{
}

/// The terms of every commitment: the modulus is `2^127 - 1`, the weights are
/// five and seven, and one whole is ten thousand basis points.
pub proof fn law_terms()
    ensures
        P == 0x8000_0000_0000_0000_0000_0000_0000_0000int - 1,
        P_U128 == P,
        G == 5,
        H == 7,
        BPS_SCALE == 10_000,
{
}

} // verus!
