//! The modulus of the commitments is prime.
//!
//! The proof follows Lucas and Lehmer. In the ring of numbers `a + b * sqrt(3)`
//! the powers of `2 + sqrt(3)` double by a recurrence on their traces, and the
//! trace of power `2^125` is divisible by the modulus. So modulo any divisor
//! the power `2^126` is minus one, and the first `2^127` powers are pairwise
//! different. A divisor whose square is within the modulus leaves room for
//! fewer.

use vstd::arithmetic::div_mod::{
    lemma_fundamental_div_mod, lemma_fundamental_div_mod_converse, lemma_mod_equivalence,
    lemma_mod_multiples_basic,
};
use vstd::arithmetic::power2::{lemma2_to64, lemma_pow2_adds, lemma_pow2_unfold, pow2};
use vstd::prelude::*;
use vstd::relations::injective_on;
use vstd::set_lib::{lemma_int_range, lemma_len_subset, lemma_map_size, set_int_range};

use crate::pedersen::{invertible, is_inverse, P};

verus! {

/// `(2 + sqrt(3))^n`, as the pair of its whole part and its part of `sqrt(3)`.
spec fn power(n: nat) -> (int, int)
    decreases n,
{
    if n == 0 {
        (1, 0)
    } else {
        let (a, b) = power((n - 1) as nat);
        (2 * a + 3 * b, a + 2 * b)
    }
}

/// Powers have norm one.
proof fn lemma_norm(n: nat)
    ensures
        power(n).0 * power(n).0 - 3 * (power(n).1 * power(n).1) == 1,
    decreases n,
{
    if n > 0 {
        lemma_norm((n - 1) as nat);
        let (a, b) = power((n - 1) as nat);
        assert((2 * a + 3 * b) * (2 * a + 3 * b) - 3 * ((a + 2 * b) * (a + 2 * b)) == a * a - 3 * (b
            * b)) by (nonlinear_arith);
        assert(power(n) == (2 * a + 3 * b, a + 2 * b));
    } else {
        assert(1int * 1int - 3 * (0int * 0int) == 1);
    }
}

/// Exponents add up.
proof fn lemma_sum(i: nat, j: nat)
    ensures
        power(i + j).0 == power(i).0 * power(j).0 + 3 * (power(i).1 * power(j).1),
        power(i + j).1 == power(i).0 * power(j).1 + power(i).1 * power(j).0,
    decreases j,
{
    let (a, b) = power(i);
    if j == 0 {
        assert(a * 1 + 3 * (b * 0) == a && a * 0 + b * 1 == b) by (nonlinear_arith);
    } else {
        lemma_sum(i, (j - 1) as nat);
        let (c, d) = power((j - 1) as nat);
        assert(power((i + j) as nat) == {
            let (x, y) = power((i + j - 1) as nat);
            (2 * x + 3 * y, x + 2 * y)
        });
        assert(i + (j - 1) == i + j - 1);
        assert(2 * (a * c + 3 * (b * d)) + 3 * (a * d + b * c) == a * (2 * c + 3 * d) + 3 * (b * (c
            + 2 * d))) by (nonlinear_arith);
        assert((a * c + 3 * (b * d)) + 2 * (a * d + b * c) == a * (c + 2 * d) + b * (2 * c + 3 * d))
            by (nonlinear_arith);
    }
}

/// The traces of the powers `2^k`.
spec fn trace(k: nat) -> int
    decreases k,
{
    if k == 0 {
        4
    } else {
        trace((k - 1) as nat) * trace((k - 1) as nat) - 2
    }
}

proof fn lemma_trace(k: nat)
    ensures
        trace(k) == 2 * power(pow2(k)).0,
    decreases k,
{
    if k == 0 {
        lemma2_to64();
        reveal_with_fuel(power, 2);
    } else {
        let n = pow2((k - 1) as nat);
        lemma_trace((k - 1) as nat);
        lemma_pow2_unfold(k);
        lemma_sum(n, n);
        lemma_norm(n);
        let (a, b) = power(n);
        assert((2 * a) * (2 * a) == 4 * (a * a)) by (nonlinear_arith);
    }
}

/// Five steps of the traces' recurrence, modulo `2^127 - 1`.
#[verifier::inline]
spec fn five_on(x: int) -> int {
    let a = (x * x - 2) % 0x7fff_ffff_ffff_ffff_ffff_ffff_ffff_ffffint;
    let b = (a * a - 2) % 0x7fff_ffff_ffff_ffff_ffff_ffff_ffff_ffffint;
    let c = (b * b - 2) % 0x7fff_ffff_ffff_ffff_ffff_ffff_ffff_ffffint;
    let d = (c * c - 2) % 0x7fff_ffff_ffff_ffff_ffff_ffff_ffff_ffffint;
    (d * d - 2) % 0x7fff_ffff_ffff_ffff_ffff_ffff_ffff_ffffint
}

proof fn lemma_trace_step(k: nat)
    ensures
        trace(k + 1) % (P as int) == ((trace(k) % (P as int)) * (trace(k) % (P as int)) - 2) % (
        P as int),
{
    let t = trace(k);
    let m = P as int;
    vstd::arithmetic::div_mod::lemma_mul_mod_noop(t, t, m);
    vstd::arithmetic::div_mod::lemma_sub_mod_noop(t * t, 2, m);
    vstd::arithmetic::div_mod::lemma_sub_mod_noop((t % m) * (t % m), 2, m);
}

proof fn lemma_trace_five(k: nat, x: int, y: int)
    requires
        trace(k) % (P as int) == x,
        five_on(x) == y,
    ensures
        trace(k + 5) % (P as int) == y,
{
    lemma_trace_step(k);
    lemma_trace_step(k + 1);
    lemma_trace_step(k + 2);
    lemma_trace_step(k + 3);
    lemma_trace_step(k + 4);
}

// The test of Lucas and Lehmer, five steps at a time.

proof fn lemma_trace_25()
    ensures
        trace(25) % (P as int) == 0x25bf_2ba1_f129_31fc_fcda_11ca_d3f4_1fddint,
{
    assert(five_on(4int) == 0x1bd6_96d9_f03d_3002int) by (nonlinear_arith);
    lemma_trace_five(0, 4int, 0x1bd6_96d9_f03d_3002int);
    assert(five_on(0x1bd6_96d9_f03d_3002int) == 0x57a0_7103_7c53_abf3_56d8_0da5_6a5e_87e9int) by (nonlinear_arith);
    lemma_trace_five(5, 0x1bd6_96d9_f03d_3002int, 0x57a0_7103_7c53_abf3_56d8_0da5_6a5e_87e9int);
    assert(five_on(0x57a0_7103_7c53_abf3_56d8_0da5_6a5e_87e9int) == 0x17df_d74d_0e4c_a8b5_762c_0a88_499d_f578int) by (nonlinear_arith);
    lemma_trace_five(10, 0x57a0_7103_7c53_abf3_56d8_0da5_6a5e_87e9int, 0x17df_d74d_0e4c_a8b5_762c_0a88_499d_f578int);
    assert(five_on(0x17df_d74d_0e4c_a8b5_762c_0a88_499d_f578int) == 0x778d_eedd_eeae_22fa_99d3_41aa_a086_3c36int) by (nonlinear_arith);
    lemma_trace_five(15, 0x17df_d74d_0e4c_a8b5_762c_0a88_499d_f578int, 0x778d_eedd_eeae_22fa_99d3_41aa_a086_3c36int);
    assert(five_on(0x778d_eedd_eeae_22fa_99d3_41aa_a086_3c36int) == 0x25bf_2ba1_f129_31fc_fcda_11ca_d3f4_1fddint) by (nonlinear_arith);
    lemma_trace_five(20, 0x778d_eedd_eeae_22fa_99d3_41aa_a086_3c36int, 0x25bf_2ba1_f129_31fc_fcda_11ca_d3f4_1fddint);
}

proof fn lemma_trace_50()
    ensures
        trace(50) % (P as int) == 0x4aec_d23f_1e00_e547_6b3b_081c_075b_9f36int,
{
    lemma_trace_25();
    assert(five_on(0x25bf_2ba1_f129_31fc_fcda_11ca_d3f4_1fddint) == 0x009d_b036_8623_d5f0_2234_c29c_f7b6_3465int) by (nonlinear_arith);
    lemma_trace_five(25, 0x25bf_2ba1_f129_31fc_fcda_11ca_d3f4_1fddint, 0x009d_b036_8623_d5f0_2234_c29c_f7b6_3465int);
    assert(five_on(0x009d_b036_8623_d5f0_2234_c29c_f7b6_3465int) == 0x67fc_9b22_1d65_63b2_352a_7ee2_4a39_f0faint) by (nonlinear_arith);
    lemma_trace_five(30, 0x009d_b036_8623_d5f0_2234_c29c_f7b6_3465int, 0x67fc_9b22_1d65_63b2_352a_7ee2_4a39_f0faint);
    assert(five_on(0x67fc_9b22_1d65_63b2_352a_7ee2_4a39_f0faint) == 0x10f5_d4e6_6a72_3f65_611d_6d91_4219_6f07int) by (nonlinear_arith);
    lemma_trace_five(35, 0x67fc_9b22_1d65_63b2_352a_7ee2_4a39_f0faint, 0x10f5_d4e6_6a72_3f65_611d_6d91_4219_6f07int);
    assert(five_on(0x10f5_d4e6_6a72_3f65_611d_6d91_4219_6f07int) == 0x2ad8_72b5_99dc_4e48_b75d_5a30_74e0_1213int) by (nonlinear_arith);
    lemma_trace_five(40, 0x10f5_d4e6_6a72_3f65_611d_6d91_4219_6f07int, 0x2ad8_72b5_99dc_4e48_b75d_5a30_74e0_1213int);
    assert(five_on(0x2ad8_72b5_99dc_4e48_b75d_5a30_74e0_1213int) == 0x4aec_d23f_1e00_e547_6b3b_081c_075b_9f36int) by (nonlinear_arith);
    lemma_trace_five(45, 0x2ad8_72b5_99dc_4e48_b75d_5a30_74e0_1213int, 0x4aec_d23f_1e00_e547_6b3b_081c_075b_9f36int);
}

proof fn lemma_trace_75()
    ensures
        trace(75) % (P as int) == 0x0e40_d700_c643_b528_9d6e_c3d9_2d6c_9be4int,
{
    lemma_trace_50();
    assert(five_on(0x4aec_d23f_1e00_e547_6b3b_081c_075b_9f36int) == 0x01fe_8fc1_3b3f_618b_8762_c7cc_1a3e_3326int) by (nonlinear_arith);
    lemma_trace_five(50, 0x4aec_d23f_1e00_e547_6b3b_081c_075b_9f36int, 0x01fe_8fc1_3b3f_618b_8762_c7cc_1a3e_3326int);
    assert(five_on(0x01fe_8fc1_3b3f_618b_8762_c7cc_1a3e_3326int) == 0x115e_3587_e4ee_b099_d518_82c5_87f8_b130int) by (nonlinear_arith);
    lemma_trace_five(55, 0x01fe_8fc1_3b3f_618b_8762_c7cc_1a3e_3326int, 0x115e_3587_e4ee_b099_d518_82c5_87f8_b130int);
    assert(five_on(0x115e_3587_e4ee_b099_d518_82c5_87f8_b130int) == 0x01a3_9c69_b77c_fea7_6981_139a_9ccd_af63int) by (nonlinear_arith);
    lemma_trace_five(60, 0x115e_3587_e4ee_b099_d518_82c5_87f8_b130int, 0x01a3_9c69_b77c_fea7_6981_139a_9ccd_af63int);
    assert(five_on(0x01a3_9c69_b77c_fea7_6981_139a_9ccd_af63int) == 0x15ca_1853_dd49_20aa_ae3b_655b_eb1f_5d79int) by (nonlinear_arith);
    lemma_trace_five(65, 0x01a3_9c69_b77c_fea7_6981_139a_9ccd_af63int, 0x15ca_1853_dd49_20aa_ae3b_655b_eb1f_5d79int);
    assert(five_on(0x15ca_1853_dd49_20aa_ae3b_655b_eb1f_5d79int) == 0x0e40_d700_c643_b528_9d6e_c3d9_2d6c_9be4int) by (nonlinear_arith);
    lemma_trace_five(70, 0x15ca_1853_dd49_20aa_ae3b_655b_eb1f_5d79int, 0x0e40_d700_c643_b528_9d6e_c3d9_2d6c_9be4int);
}

proof fn lemma_trace_100()
    ensures
        trace(100) % (P as int) == 0x0352_54c3_d1d0_dc71_616f_9e91_9708_e087int,
{
    lemma_trace_75();
    assert(five_on(0x0e40_d700_c643_b528_9d6e_c3d9_2d6c_9be4int) == 0x6fd9_211e_6f62_094c_37bc_8a03_672f_34e8int) by (nonlinear_arith);
    lemma_trace_five(75, 0x0e40_d700_c643_b528_9d6e_c3d9_2d6c_9be4int, 0x6fd9_211e_6f62_094c_37bc_8a03_672f_34e8int);
    assert(five_on(0x6fd9_211e_6f62_094c_37bc_8a03_672f_34e8int) == 0x3e1a_a777_367c_bd7e_1978_45f0_c2cd_3acdint) by (nonlinear_arith);
    lemma_trace_five(80, 0x6fd9_211e_6f62_094c_37bc_8a03_672f_34e8int, 0x3e1a_a777_367c_bd7e_1978_45f0_c2cd_3acdint);
    assert(five_on(0x3e1a_a777_367c_bd7e_1978_45f0_c2cd_3acdint) == 0x1cab_cddf_4bbe_6ea8_e40f_45d0_31ca_da5aint) by (nonlinear_arith);
    lemma_trace_five(85, 0x3e1a_a777_367c_bd7e_1978_45f0_c2cd_3acdint, 0x1cab_cddf_4bbe_6ea8_e40f_45d0_31ca_da5aint);
    assert(five_on(0x1cab_cddf_4bbe_6ea8_e40f_45d0_31ca_da5aint) == 0x3900_4e63_9c27_f842_9cb5_a1e4_4ed1_02bfint) by (nonlinear_arith);
    lemma_trace_five(90, 0x1cab_cddf_4bbe_6ea8_e40f_45d0_31ca_da5aint, 0x3900_4e63_9c27_f842_9cb5_a1e4_4ed1_02bfint);
    assert(five_on(0x3900_4e63_9c27_f842_9cb5_a1e4_4ed1_02bfint) == 0x0352_54c3_d1d0_dc71_616f_9e91_9708_e087int) by (nonlinear_arith);
    lemma_trace_five(95, 0x3900_4e63_9c27_f842_9cb5_a1e4_4ed1_02bfint, 0x0352_54c3_d1d0_dc71_616f_9e91_9708_e087int);
}

/// The trace of the power `2^125` is divisible by the modulus.
proof fn lemma_lucas_lehmer()
    ensures
        trace(125) % (P as int) == 0,
{
    lemma_trace_100();
    assert(five_on(0x0352_54c3_d1d0_dc71_616f_9e91_9708_e087int) == 0x1313_e00d_fd11_b9b5_11f6_d2dc_8724_00d6int) by (nonlinear_arith);
    lemma_trace_five(100, 0x0352_54c3_d1d0_dc71_616f_9e91_9708_e087int, 0x1313_e00d_fd11_b9b5_11f6_d2dc_8724_00d6int);
    assert(five_on(0x1313_e00d_fd11_b9b5_11f6_d2dc_8724_00d6int) == 0x6521_240f_cb93_719d_7ffb_5ebb_5964_18a5int) by (nonlinear_arith);
    lemma_trace_five(105, 0x1313_e00d_fd11_b9b5_11f6_d2dc_8724_00d6int, 0x6521_240f_cb93_719d_7ffb_5ebb_5964_18a5int);
    assert(five_on(0x6521_240f_cb93_719d_7ffb_5ebb_5964_18a5int) == 0x79d1_b838_1140_b4fa_eb8e_b996_8641_6b89int) by (nonlinear_arith);
    lemma_trace_five(110, 0x6521_240f_cb93_719d_7ffb_5ebb_5964_18a5int, 0x79d1_b838_1140_b4fa_eb8e_b996_8641_6b89int);
    assert(five_on(0x79d1_b838_1140_b4fa_eb8e_b996_8641_6b89int) == 0x2341_b7ef_a3a2_2601_a447_8028_5506_ef21int) by (nonlinear_arith);
    lemma_trace_five(115, 0x79d1_b838_1140_b4fa_eb8e_b996_8641_6b89int, 0x2341_b7ef_a3a2_2601_a447_8028_5506_ef21int);
    assert(five_on(0x2341_b7ef_a3a2_2601_a447_8028_5506_ef21int) == 0int) by (nonlinear_arith);
    lemma_trace_five(120, 0x2341_b7ef_a3a2_2601_a447_8028_5506_ef21int, 0int);
}

/// `x` and `y` leave the same remainder.
spec fn same(x: int, y: int, q: int) -> bool {
    (x - y) % q == 0
}

/// The quotient of a difference that `q` divides.
proof fn lemma_quotient(x: int, y: int, q: int) -> (c: int)
    requires
        q > 0,
        same(x, y, q),
    ensures
        x == y + q * c,
{
    lemma_fundamental_div_mod(x - y, q);
    (x - y) / q
}

proof fn lemma_same(x: int, y: int, q: int, c: int)
    requires
        q > 0,
        x == y + q * c,
    ensures
        same(x, y, q),
{
    assert(q * c == c * q) by (nonlinear_arith);
    lemma_mod_multiples_basic(c, q);
}

/// The power `n` is `sign` modulo `q`.
spec fn is_sign(n: nat, sign: int, q: int) -> bool {
    same(power(n).0, sign, q) && same(power(n).1, 0, q)
}

/// Where two powers are signs, so is their product.
proof fn lemma_signs_multiply(i: nat, s: int, j: nat, t: int, q: int)
    requires
        q > 0,
        is_sign(i, s, q),
        is_sign(j, t, q),
    ensures
        is_sign(i + j, s * t, q),
{
    lemma_sum(i, j);
    let (a, b) = power(i);
    let (c, d) = power(j);
    let u = lemma_quotient(a, s, q);
    let v = lemma_quotient(b, 0, q);
    let w = lemma_quotient(c, t, q);
    let z = lemma_quotient(d, 0, q);
    let (f, g, h, k) = (s * w, u * t, u * (q * w), v * (q * z));
    let (qu, qw) = (q * u, q * w);
    assert((s + qu) * (t + qw) == s * t + s * qw + qu * t + qu * qw) by (nonlinear_arith);
    assert(s * (q * w) == q * (s * w)) by (nonlinear_arith);
    assert((q * u) * t == q * (u * t)) by (nonlinear_arith);
    assert((q * u) * (q * w) == q * (u * (q * w))) by (nonlinear_arith);
    assert((q * v) * (q * z) == q * (v * (q * z))) by (nonlinear_arith);
    assert(q * (f + g + h + 3 * k) == q * f + q * g + q * h + 3 * (q * k)) by (nonlinear_arith);
    lemma_same(power(i + j).0, s * t, q, f + g + h + 3 * k);
    assert(a * d + b * c == q * (a * z + v * c)) by (nonlinear_arith)
        requires
            b == q * v,
            d == q * z,
    ;
    lemma_same(power(i + j).1, 0, q, a * z + v * c);
}

/// A multiple of an exponent whose power is one has the power one.
proof fn lemma_ones(n: nat, c: nat, q: int)
    requires
        q > 0,
        is_sign(n, 1, q),
    ensures
        is_sign(n * c, 1, q),
    decreases c,
{
    if c == 0 {
        assert(n * 0 == 0);
        lemma_same(1, 1, q, 0);
        lemma_same(0, 0, q, 0);
    } else {
        lemma_ones(n, (c - 1) as nat, q);
        lemma_signs_multiply(n * ((c - 1) as nat), 1, n, 1, q);
        assert(n * ((c - 1) as nat) + n == n * c) by (nonlinear_arith)
            requires
                c >= 1,
        ;
    }
}

/// An odd multiple of an exponent whose power is minus one has that power.
proof fn lemma_minus_ones(n: nat, c: nat, q: int)
    requires
        q > 0,
        is_sign(n, -1, q),
        c % 2 == 1,
    ensures
        is_sign(n * c, -1, q),
    decreases c,
{
    if c == 1 {
        assert(n * 1 == n);
    } else {
        lemma_minus_ones(n, (c - 2) as nat, q);
        lemma_signs_multiply(n * ((c - 2) as nat), -1, n, -1, q);
        lemma_signs_multiply(n * ((c - 2) as nat) + n, 1, n, -1, q);
        assert(n * ((c - 2) as nat) + n + n == n * c) by (nonlinear_arith)
            requires
                c >= 2,
        ;
    }
}

/// Modulo a divisor of the modulus, the power `2^126` is minus one.
proof fn lemma_half_way(q: int, r: int)
    requires
        q > 0,
        q * r == P,
    ensures
        is_sign(pow2(126), -1, q),
{
    let n = pow2(125);
    let (a, b) = power(n);
    lemma_lucas_lehmer();
    lemma_trace(125);
    lemma_pow2_unfold(126);
    lemma_sum(n, n);
    lemma_norm(n);
    lemma_fundamental_div_mod(trace(125), P as int);
    let c = trace(125) / (P as int);
    assert(2 * a == P * c);
    assert(a * a + 3 * (b * b) == -1 + q * (r * (c * a))) by (nonlinear_arith)
        requires
            a * a - 3 * (b * b) == 1,
            2 * a == P * c,
            q * r == P,
    {
        assert(2 * (a * a) == (2 * a) * a);
        assert((q * r * c) * a == q * (r * (c * a)));
    }
    assert(a * b + b * a == q * (r * (c * b))) by (nonlinear_arith)
        requires
            2 * a == P * c,
            q * r == P,
    {
        assert(a * b + b * a == (2 * a) * b);
        assert((q * r * c) * b == q * (r * (c * b)));
    }
    lemma_same(power(pow2(126)).0, -1, q, r * (c * a));
    lemma_same(power(pow2(126)).1, 0, q, r * (c * b));
}

/// No power below `2^127` is one: halving its exponent as often as it goes
/// would leave an odd multiple of `2^126`, whose power is minus one.
proof fn lemma_no_early_one(k: nat, e: nat, q: int)
    requires
        q > 2,
        is_sign(pow2(126), -1, q),
        e <= 126,
        0 < k < pow2(e + 1),
    ensures
        !is_sign(k * pow2((126 - e) as nat), 1, q),
    decreases e,
{
    let n = k * pow2((126 - e) as nat);
    if is_sign(n, 1, q) {
        if k % 2 == 1 {
            lemma_ones(n, pow2(e), q);
            lemma_minus_ones(pow2(126), k, q);
            lemma_pow2_adds((126 - e) as nat, e);
            assert(n * pow2(e) == pow2(126) * k) by (nonlinear_arith)
                requires
                    n == k * pow2((126 - e) as nat),
                    pow2((126 - e) as nat) * pow2(e) == pow2(126),
            ;
            let x = power(pow2(126) * k).0;
            let c = lemma_quotient(x, 1, q);
            let d = lemma_quotient(x, -1, q);
            assert(false) by (nonlinear_arith)
                requires
                    1 + q * c == -1 + q * d,
                    q > 2,
            {
                assert(q * (d - c) == 2);
                assert(d - c >= 1 ==> q * (d - c) >= q);
                assert(d - c <= 0 ==> q * (d - c) <= 0);
            }
        } else {
            let half = (k / 2) as nat;
            lemma_pow2_unfold(e + 1);
            if e == 0 {
                lemma2_to64();
            } else {
                lemma_no_early_one(half, (e - 1) as nat, q);
                lemma_pow2_unfold((126 - e + 1) as nat);
                assert(half * pow2((126 - e + 1) as nat) == n) by (nonlinear_arith)
                    requires
                        n == k * pow2((126 - e) as nat),
                        k == 2 * half,
                        pow2((126 - e + 1) as nat) == 2 * pow2((126 - e) as nat),
                ;
            }
        }
    }
}

/// Where two powers leave the same remainders, the power in between is one.
proof fn lemma_difference(i: nat, d: nat, q: int)
    requires
        q > 0,
        same(power(i + d).0, power(i).0, q),
        same(power(i + d).1, power(i).1, q),
    ensures
        is_sign(d, 1, q),
{
    let (a, b) = power(i);
    let (x, y) = power(d);
    let (c, e) = power(i + d);
    lemma_sum(i, d);
    lemma_norm(i);
    let u = lemma_quotient(c, a, q);
    let v = lemma_quotient(e, b, q);
    // Multiply by the conjugate of the power `i`, whose norm is one.
    assert(a * (a * x + 3 * (b * y)) == (a * a) * x + 3 * (a * (b * y))) by (nonlinear_arith);
    assert(b * (a * y + b * x) == a * (b * y) + (b * b) * x) by (nonlinear_arith);
    assert(a * (a * y + b * x) == (a * a) * y + a * (b * x)) by (nonlinear_arith);
    assert(b * (a * x + 3 * (b * y)) == a * (b * x) + 3 * ((b * b) * y)) by (nonlinear_arith);
    let (aa, bb) = (a * a, b * b);
    assert(aa * x - 3 * (bb * x) == x && aa * y - 3 * (bb * y) == y) by (nonlinear_arith)
        requires
            aa - 3 * bb == 1,
    ;
    assert(a * (a + q * u) == a * a + q * (a * u)) by (nonlinear_arith);
    assert(b * (b + q * v) == b * b + q * (b * v)) by (nonlinear_arith);
    assert(a * (b + q * v) == a * b + q * (a * v)) by (nonlinear_arith);
    assert(b * (a + q * u) == a * b + q * (b * u)) by (nonlinear_arith);
    let (f, g, h, k) = (a * u, b * v, a * v, b * u);
    assert(q * (f - 3 * g) == q * f - 3 * (q * g)) by (nonlinear_arith);
    assert(q * (h - k) == q * h - q * k) by (nonlinear_arith);
    lemma_same(x, 1, q, f - 3 * g);
    lemma_same(y, 0, q, h - k);
}

/// The remainders of a power, as one number below the square of `q`.
spec fn code(q: int) -> spec_fn(int) -> int {
    |n: int| (power(n as nat).0 % q) * q + power(n as nat).1 % q
}

proof fn lemma_code_injective(q: int, i: int, j: int)
    requires
        q > 2,
        is_sign(pow2(126), -1, q),
        0 <= i < j < pow2(127),
    ensures
        code(q)(i) != code(q)(j),
{
    if code(q)(i) == code(q)(j) {
        let (a, b) = power(i as nat);
        let (c, e) = power(j as nat);
        lemma_fundamental_div_mod_converse(code(q)(i), q, a % q, b % q);
        lemma_fundamental_div_mod_converse(code(q)(i), q, c % q, e % q);
        lemma_mod_equivalence(c, a, q);
        lemma_mod_equivalence(e, b, q);
        let d = (j - i) as nat;
        assert(i as nat + d == j as nat);
        lemma_difference(i as nat, d, q);
        lemma_no_early_one(d, 126, q);
        lemma2_to64();
        assert(d * pow2(0) == d);
    }
}

/// No divisor of the modulus above two has a square within it.
proof fn lemma_no_small_divisor(q: int, r: int)
    requires
        q > 2,
        q * r == P,
    ensures
        q * q > P,
{
    lemma_half_way(q, r);
    lemma2_to64();
    lemma_pow2_adds(64, 63);
    lemma_pow2_unfold(64);
    let exponents = set_int_range(0, pow2(127) as int);
    let codes = exponents.map(code(q));
    assert(injective_on(code(q), exponents)) by {
        assert forall|i: int, j: int|
            exponents.contains(i) && exponents.contains(j) && #[trigger] code(q)(i)
                == #[trigger] code(q)(j) implies i == j by {
            if i < j {
                lemma_code_injective(q, i, j);
            } else if j < i {
                lemma_code_injective(q, j, i);
            }
        }
    }
    lemma_int_range(0, pow2(127) as int);
    lemma_map_size(exponents, codes, code(q));
    assert(0 <= q * q) by (nonlinear_arith);
    lemma_int_range(0, q * q);
    assert forall|x: int| codes.contains(x) implies set_int_range(0, q * q).contains(x) by {
        let n = choose|n: int| exponents.contains(n) && code(q)(n) == x;
        let a = power(n as nat).0 % q;
        let b = power(n as nat).1 % q;
        assert(0 <= a * q + b < q * q) by (nonlinear_arith)
            requires
                0 <= a < q,
                0 <= b < q,
        ;
    }
    lemma_len_subset(codes, set_int_range(0, q * q));
    assert(pow2(127) == P + 1);
}

/// The modulus is prime: it has no divisor but one and itself.
pub proof fn law_modulus_is_prime(q: int, r: int)
    requires
        q > 0,
        q * r == P,
    ensures
        q == 1 || q == P,
{
    assert(r > 0) by (nonlinear_arith)
        requires
            q > 0,
            q * r == P,
    ;
    assert(q != 2 && r != 2);
    if q != 1 && r != 1 {
        if q <= r {
            assert(q * q <= q * r) by (nonlinear_arith)
                requires
                    0 < q <= r,
            ;
            lemma_no_small_divisor(q, r);
        } else {
            assert(r * r <= q * r && r * q == q * r) by (nonlinear_arith)
                requires
                    0 < r <= q,
            ;
            lemma_no_small_divisor(r, q);
        }
    }
    assert(r == 1 ==> q == P);
}

/// A common divisor of `a` and `b`, as a combination of them.
proof fn lemma_bezout(a: int, b: int) -> (r: (int, int, int, int, int))
    requires
        a >= 0,
        b > 0,
    ensures
        ({
            let (g, x, y, i, j) = r;
            g > 0 && g == a * x + b * y && a == g * i && b == g * j
        }),
    decreases a,
{
    if a == 0 {
        assert(b == 0 * 0 + b * 1 && 0 == b * 0 && b == b * 1);
        (b, 0, 1, 0, 1)
    } else {
        lemma_fundamental_div_mod(b, a);
        let k = b / a;
        let c = b % a;
        let (g, x, y, i, j) = lemma_bezout(c, a);
        assert(g == a * (y - k * x) + b * x && b == g * (j * k + i)) by (nonlinear_arith)
            requires
                g == c * x + a * y,
                b == a * k + c,
                c == g * i,
                a == g * j,
        ;
        (g, y - k * x, x, j, j * k + i)
    }
}

/// Every number that the modulus does not divide has an inverse, and no other
/// number has one.
pub proof fn law_invertible(a: int)
    ensures
        invertible(a, P as int) <==> a % (P as int) != 0,
{
    let m = P as int;
    lemma_fundamental_div_mod(a, m);
    let k = a / m;
    let c = a % m;
    if c != 0 {
        let (g, x, y, i, j) = lemma_bezout(c, m);
        law_modulus_is_prime(g, j);
        if g == m {
            assert(false) by (nonlinear_arith)
                requires
                    0 < c < m,
                    c == m * i,
            ;
        }
        let inv = x % m;
        lemma_fundamental_div_mod(x, m);
        let h = x / m;
        let f = k * inv - c * h - y;
        assert(a * inv == f * m + 1) by (nonlinear_arith)
            requires
                a == m * k + c,
                x == m * h + inv,
                1 == c * x + m * y,
                f == k * inv - c * h - y,
        ;
        lemma_fundamental_div_mod_converse(a * inv, m, f, 1);
        assert(is_inverse(inv, a, m));
    } else if invertible(a, m) {
        let x = choose|x: int| is_inverse(x, a, m);
        assert(a * x == (k * x) * m) by (nonlinear_arith)
            requires
                a == m * k,
        ;
        lemma_mod_multiples_basic(k * x, m);
    }
}

} // verus!
