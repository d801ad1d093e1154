//! Powers of two and address alignment, stated over mathematical integers.
use vstd::prelude::*;
use vstd::arithmetic::div_mod::{
    lemma_fundamental_div_mod,
    lemma_mod_multiples_basic,
    lemma_mod_pos_bound,
};

verus! {

/// `n` is a power of two (1, 2, 4, ...).
pub open spec fn is_pow2(n: int) -> bool
    decreases n,
{
    if n <= 0 {
        false
    } else if n == 1 {
        true
    } else {
        n % 2 == 0 && is_pow2(n / 2)
    }
}

/// The least multiple of `a` that is at least `x`.
pub open spec fn align_up(x: int, a: int) -> int {
    if x % a == 0 {
        x
    } else {
        x + (a - x % a)
    }
}

/// The greatest multiple of `a` that is at most `x`.
pub open spec fn align_down(x: int, a: int) -> int {
    x - x % a
}

/// Of two powers of two, the larger is a multiple of the smaller.
pub proof fn lemma_pow2_divides(a: int, b: int)
    requires
        is_pow2(a),
        is_pow2(b),
        a <= b,
    ensures
        b % a == 0,
    decreases a,
{
    if a == 1 {
    } else {
        assert(b != 1);
        lemma_pow2_divides(a / 2, b / 2);
        let k = (b / 2) / (a / 2);
        lemma_fundamental_div_mod(b / 2, a / 2);
        assert(a == 2 * (a / 2));
        assert(b == k * a) by (nonlinear_arith)
            requires
                b / 2 == (a / 2) * k,
                b == 2 * (b / 2),
                a == 2 * (a / 2),
        ;
        lemma_mod_multiples_basic(k, a);
    }
}

/// A multiple of `a`, where `a` is a multiple of `b`, is a multiple of `b`.
pub proof fn lemma_mod_transitive(x: int, a: int, b: int)
    requires
        0 < a,
        0 < b,
        x % a == 0,
        a % b == 0,
    ensures
        x % b == 0,
{
    lemma_fundamental_div_mod(x, a);
    lemma_fundamental_div_mod(a, b);
    let k = (a / b) * (x / a);
    assert(x == k * b) by (nonlinear_arith)
        requires
            x == a * (x / a),
            a == b * (a / b),
            k == (a / b) * (x / a),
    ;
    lemma_mod_multiples_basic(k, b);
}

/// What `align_up` gives: an aligned value in `[x, x + a)`.
pub proof fn lemma_align_up(x: int, a: int)
    requires
        0 <= x,
        0 < a,
    ensures
        x <= align_up(x, a) < x + a,
        align_up(x, a) % a == 0,
{
    lemma_mod_pos_bound(x, a);
    lemma_fundamental_div_mod(x, a);
    if x % a != 0 {
        let q = x / a;
        assert(align_up(x, a) == (q + 1) * a) by (nonlinear_arith)
            requires
                x == a * q + x % a,
                align_up(x, a) == x + (a - x % a),
        ;
        lemma_mod_multiples_basic(q + 1, a);
    }
}

/// What `align_down` gives: an aligned value in `(x - a, x]`.
pub proof fn lemma_align_down(x: int, a: int)
    requires
        0 <= x,
        0 < a,
    ensures
        x - a < align_down(x, a) <= x,
        0 <= align_down(x, a),
        align_down(x, a) % a == 0,
{
    lemma_mod_pos_bound(x, a);
    lemma_fundamental_div_mod(x, a);
    let q = x / a;
    assert(align_down(x, a) == q * a) by (nonlinear_arith)
        requires
            x == a * q + x % a,
            align_down(x, a) == x - x % a,
    ;
    lemma_mod_multiples_basic(q, a);
}

/// Rounds `x` up to a multiple of `a`; `None` where that exceeds `usize::MAX`.
pub fn checked_align_up(x: usize, a: usize) -> (r: Option<usize>)
    requires
        a > 0,
    ensures
        r is Some <==> align_up(x as int, a as int) <= usize::MAX,
        r is Some ==> r->0 == align_up(x as int, a as int),
{
    let rem = x % a;
    if rem == 0 {
        Some(x)
    } else if x > usize::MAX - (a - rem) {
        None
    } else {
        Some(x + (a - rem))
    }
}

/// Rounds `x` down to a multiple of `a`.
pub fn align_down_usize(x: usize, a: usize) -> (r: usize)
    requires
        a > 0,
    ensures
        r == align_down(x as int, a as int),
{
    proof {
        lemma_align_down(x as int, a as int);
    }
    x - x % a
}

} // verus!
