use vstd::prelude::*;

verus! {

// Division of machine integers as Rust computes it: the quotient is
// truncated towards zero and the remainder takes the sign of the dividend.

/// The remainder of `a` divided by `b` as Rust computes it for machine
/// integers: truncated towards zero, with the sign of `a`.
pub open spec fn spec_truncated_rem(a: int, b: int) -> int {
    if a >= 0 {
        a % b
    } else {
        -((-a) % b)
    }
}

/// The quotient of `a` divided by `b` as Rust computes it for machine
/// integers: truncated towards zero.
pub open spec fn spec_truncated_div(a: int, b: int) -> int {
    if a == 0 {
        0
    } else if a > 0 && b > 0 {
        a / b
    } else if a < 0 && b < 0 {
        (-a) / (-b)
    } else if a < 0 {
        -((-a) / b)
    } else {
        -(a / (-b))
    }
}

/// Negating the dividend keeps whether the division leaves a remainder.
pub proof fn lemma_rem_negated(c: int, s: int)
    requires
        s != 0,
    ensures
        (c % s == 0) <==> ((-c) % s == 0),
{
    lemma_multiple_rem_zero(c / s, s);
    lemma_multiple_rem_zero(-(c / s), s);
    lemma_multiple_rem_zero((-c) / s, s);
    lemma_multiple_rem_zero(-((-c) / s), s);
    vstd::arithmetic::div_mod::lemma_fundamental_div_mod(c, s);
    vstd::arithmetic::div_mod::lemma_fundamental_div_mod(-c, s);
    assert(-(s * (c / s)) == s * (-(c / s))) by (nonlinear_arith);
    assert(-(s * ((-c) / s)) == s * (-((-c) / s))) by (nonlinear_arith);
}

/// A multiple of a non-zero number leaves no remainder when divided by it.
pub proof fn lemma_multiple_rem_zero(q: int, s: int)
    requires
        s != 0,
    ensures
        (s * q) % s == 0,
{
    if s > 0 {
        vstd::arithmetic::div_mod::lemma_mod_multiples_basic(q, s);
        vstd::arithmetic::mul::lemma_mul_is_commutative(q, s);
    } else {
        let x = s * q;
        vstd::arithmetic::div_mod::lemma_fundamental_div_mod(x, s);
        let q2 = x / s;
        let r2 = x % s;
        assert(r2 == 0) by (nonlinear_arith)
            requires
                s < 0,
                x == s * q,
                x == s * q2 + r2,
                0 <= r2 < -s,
        {
            assert(s * (q - q2) == r2);
            if q - q2 > 0 {
                assert(s * (q - q2) <= s);
            } else if q - q2 < 0 {
                assert(s * (q - q2) >= -s);
            }
        }
    }
}


/// A quotient of natural numbers is no greater than the dividend, and is
/// below it unless the divisor is one.
pub proof fn lemma_quotient_bounded(x: int, y: int)
    requires
        x >= 0,
        y > 0,
    ensures
        0 <= x / y <= x,
        y > 1 && x > 0 ==> x / y < x,
{
    vstd::arithmetic::div_mod::lemma_div_basics_5(x, y);
    if y > 1 && x > 0 {
        vstd::arithmetic::div_mod::lemma_div_is_strictly_smaller(x, y);
    }
}

} // verus!
