//! Arithmetic facts about the scaled multiply-then-divide steps the
//! accumulator bookkeeping is made of.

use vstd::prelude::*;

verus! {

/// Scaling by a larger accumulator value never shrinks a debt term.
pub proof fn lemma_mul_div_mono(a: int, b1: int, b2: int, d: int)
    requires
        0 <= a,
        0 <= b1 <= b2,
        0 < d,
    ensures
        a * b1 / d <= a * b2 / d,
{
    assert(a * b1 <= a * b2) by (nonlinear_arith)
        requires
            0 <= a,
            b1 <= b2,
    ;
    vstd::arithmetic::div_mod::lemma_div_is_ordered(a * b1, a * b2, d);
}

/// Dividing a product by its own factor gives back at most the other
/// factor.
pub proof fn lemma_mul_div_le(a: int, b: int, d: int)
    requires
        0 <= a,
        0 <= b,
        0 < d,
        b <= d,
    ensures
        a * b / d <= a,
{
    assert(a * b <= a * d) by (nonlinear_arith)
        requires
            0 <= a,
            b <= d,
    ;
    assert(a * d / d == a) by (nonlinear_arith)
        requires
            0 < d,
    ;
    vstd::arithmetic::div_mod::lemma_div_is_ordered(a * b, a * d, d);
}

/// Converting to shares and back loses less than one share's worth: for
/// `s == a * q / r` (shares bought with `a` at rate `r`, scale `q`), the
/// value `s * r / q` returned on immediate exit is at most `a` and misses
/// it by less than `r / q + 1`.
pub proof fn lemma_round_trip_value(a: int, q: int, r: int)
    requires
        0 <= a,
        0 < q,
        0 < r,
    ensures
        (a * q / r) * r / q <= a,
        ((a * q / r) * r / q) * q > a * q - r - q,
{
    let s = a * q / r;
    vstd::arithmetic::div_mod::lemma_fundamental_div_mod(a * q, r);
    vstd::arithmetic::div_mod::lemma_mod_bound(a * q, r);
    // a * q - r < s * r <= a * q
    assert(s * r <= a * q && s * r > a * q - r) by (nonlinear_arith)
        requires
            0 < r,
            a * q == r * s + (a * q) % r,
            0 <= (a * q) % r < r,
    ;
    let t = s * r / q;
    vstd::arithmetic::div_mod::lemma_fundamental_div_mod(s * r, q);
    vstd::arithmetic::div_mod::lemma_mod_bound(s * r, q);
    assert(t * q <= s * r && t * q > s * r - q) by (nonlinear_arith)
        requires
            0 < q,
            s * r == q * t + (s * r) % q,
            0 <= (s * r) % q < q,
    ;
    // t <= a because t * q <= a * q
    vstd::arithmetic::div_mod::lemma_div_is_ordered(s * r, a * q, q);
    assert(a * q / q == a) by (nonlinear_arith)
        requires
            0 < q,
    ;
}

} // verus!
