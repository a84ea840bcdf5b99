//! Integer arithmetic shared by the contracts: division toward zero, and the
//! range of the ledger's amounts.

use vstd::prelude::*;

verus! {

/// The quotient `a / b` rounded toward zero, for a positive `b`.
pub open spec fn quotient(a: int, b: int) -> int {
    if a >= 0 {
        a / b
    } else {
        -((-a) / b)
    }
}

/// `x` is an amount that the ledger can hold.
pub open spec fn fits(x: int) -> bool {
    i128::MIN <= x <= i128::MAX
}

/// The value of `o`, zero where there is none.
pub open spec fn or_zero(o: Option<i128>) -> i128 {
    match o {
        Some(v) => v,
        None => 0,
    }
}

/// The value of `o`, zero where there is none.
pub fn value_or_zero(o: Option<i128>) -> (v: i128)
    ensures
        v == or_zero(o),
        o matches Some(x) ==> v == x,
        o is None ==> v == 0,
{
    match o {
        Some(v) => v,
        None => 0,
    }
}

/// Whether `a * b` is in range.
pub fn product_fits(a: i128, b: i128) -> (r: bool)
    ensures
        r == fits(a * b),
        r == (-0x8000_0000_0000_0000_0000_0000_0000_0000int <= a * b
            <= 0x7fff_ffff_ffff_ffff_ffff_ffff_ffff_ffffint),
{
    a.checked_mul(b).is_some()
}

/// Whether `a + b` is in range.
pub fn sum_fits(a: i128, b: i128) -> (r: bool)
    ensures
        r == fits(a + b),
        r == (-0x8000_0000_0000_0000_0000_0000_0000_0000int <= a + b
            <= 0x7fff_ffff_ffff_ffff_ffff_ffff_ffff_ffffint),
{
    a.checked_add(b).is_some()
}

/// Whether `a - b` is in range.
pub fn difference_fits(a: i128, b: i128) -> (r: bool)
    ensures
        r == fits(a - b),
        r == (-0x8000_0000_0000_0000_0000_0000_0000_0000int <= a - b
            <= 0x7fff_ffff_ffff_ffff_ffff_ffff_ffff_ffffint),
{
    a.checked_sub(b).is_some()
}

/// The quotient is monotone in the dividend.
pub proof fn lemma_quotient_monotone(a: int, b: int, d: int)
    requires
        a <= b,
        d > 0,
    ensures
        quotient(a, d) <= quotient(b, d),
{
    if a >= 0 {
        vstd::arithmetic::div_mod::lemma_div_is_ordered(a, b, d);
    } else if b < 0 {
        vstd::arithmetic::div_mod::lemma_div_is_ordered(-b, -a, d);
    } else {
        vstd::arithmetic::div_mod::lemma_div_pos_is_pos(b, d);
        vstd::arithmetic::div_mod::lemma_div_pos_is_pos(-a, d);
    }
}

/// The quotient truncates: it is the whole number of times that the divisor
/// goes into the dividend, and what is left over is smaller than the divisor
/// and has the dividend's sign.
pub proof fn law_quotient_truncates(a: int, b: int)
    requires
        b > 0,
    ensures
        a >= 0 ==> b * quotient(a, b) <= a < b * quotient(a, b) + b,
        a <= 0 ==> b * quotient(a, b) - b < a <= b * quotient(a, b),
{
    let d = if a >= 0 {
        a
    } else {
        -a
    };
    vstd::arithmetic::div_mod::lemma_fundamental_div_mod(d, b);
    vstd::arithmetic::div_mod::lemma_mod_division_less_than_divisor(d, b);
    let q = d / b;
    assert(b * (-q) == -(b * q)) by (nonlinear_arith);
    if a == 0 {
        assert(q == 0) by (nonlinear_arith)
            requires
                b > 0,
                b * q + d % b == 0,
                0 <= d % b < b,
        ;
    }
}

/// An amount is in range exactly where it is an `i128`, and an absent amount
/// counts as zero.
pub proof fn law_amounts(x: int, o: Option<i128>)
    ensures
        fits(x) <==> -0x8000_0000_0000_0000_0000_0000_0000_0000int <= x
            <= 0x7fff_ffff_ffff_ffff_ffff_ffff_ffff_ffffint,
        o matches Some(v) ==> or_zero(o) == v,
        o is None ==> or_zero(o) == 0,
{
}

} // verus!
