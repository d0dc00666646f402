use vstd::prelude::*;

verus! {

/// Whether a mathematical integer can be held in a signed 128-bit amount.
pub open spec fn fits_i128(x: int) -> bool {
    i128::MIN <= x <= i128::MAX
}

/// The quotient of `n` by `d`, rounded toward zero.
pub open spec fn trunc_div(n: int, d: int) -> int
    recommends
        d != 0,
{
    if n >= 0 {
        if d > 0 {
            n / d
        } else {
            -(n / (-d))
        }
    } else {
        if d > 0 {
            -((-n) / d)
        } else {
            (-n) / (-d)
        }
    }
}

/// `a * b / d` in checked 128-bit arithmetic, the quotient rounded toward
/// zero: `None` where the divisor is zero, or the product or the quotient
/// cannot be held.
pub open spec fn mul_div(a: int, b: int, d: int) -> Option<int> {
    if d == 0 || !fits_i128(a * b) || !fits_i128(trunc_div(a * b, d)) {
        None
    } else {
        Some(trunc_div(a * b, d))
    }
}

/// Whether `r` is the integer square root of `n`, rounded down.
pub open spec fn is_floor_sqrt(n: int, r: int) -> bool {
    r >= 0 && r * r <= n < (r + 1) * (r + 1)
}

/// The integer square root of `n`, rounded down. It is determined for
/// every `n >= 0` (see `lemma_floor_sqrt_unique`).
pub open spec fn floor_sqrt(n: int) -> int {
    choose|r: int| is_floor_sqrt(n, r)
}

/// At most one integer is the rounded-down square root of `n`, so any `r`
/// that qualifies is `floor_sqrt(n)`.
pub proof fn lemma_floor_sqrt_unique(n: int, r: int)
    requires
        is_floor_sqrt(n, r),
    ensures
        floor_sqrt(n) == r,
{
    let s = floor_sqrt(n);
    assert(is_floor_sqrt(n, s));
    if s < r {
        assert((s + 1) * (s + 1) <= r * r) by (nonlinear_arith)
            requires
                0 <= s + 1 <= r,
        ;
    }
    if r < s {
        assert((r + 1) * (r + 1) <= s * s) by (nonlinear_arith)
            requires
                0 <= r + 1 <= s,
        ;
    }
}

/// Every `n >= 0` has a rounded-down square root, and `floor_sqrt(n)` is it.
pub proof fn lemma_floor_sqrt_exists(n: int)
    requires
        n >= 0,
    ensures
        is_floor_sqrt(n, floor_sqrt(n)),
    decreases n,
{
    if n == 0 {
        assert(is_floor_sqrt(0, 0));
    } else {
        lemma_floor_sqrt_exists(n - 1);
        let r = floor_sqrt(n - 1);
        if n < (r + 1) * (r + 1) {
            assert(is_floor_sqrt(n, r));
        } else {
            assert((r + 2) * (r + 2) == (r + 1) * (r + 1) + 2 * r + 3) by (nonlinear_arith);
            assert(is_floor_sqrt(n, r + 1));
        }
    }
}

/// The rounded-down square root of `n >= 0` lies between 0 and `n`, and is
/// zero only for `n == 0`.
pub proof fn lemma_floor_sqrt_bounds(n: int)
    requires
        n >= 0,
    ensures
        0 <= floor_sqrt(n) <= n,
        n > 0 ==> floor_sqrt(n) > 0,
{
    lemma_floor_sqrt_exists(n);
    let r = floor_sqrt(n);
    assert(r <= r * r) by (nonlinear_arith)
        requires
            r >= 0,
    ;
}

/// Multiplying by `d != 0` and dividing by it again gives the number back.
pub proof fn lemma_trunc_div_cancels(a: int, d: int)
    requires
        d != 0,
    ensures
        trunc_div(a * d, d) == a,
{
    assert(trunc_div(a * d, d) == a) by (nonlinear_arith)
        requires
            d != 0,
    ;
}

/// Computes `a * b / d` with every step checked.
pub fn checked_mul_div(a: i128, b: i128, d: i128) -> (r: Option<i128>)
    ensures
        match r {
            Some(q) => mul_div(a as int, b as int, d as int) == Some(q as int),
            None => mul_div(a as int, b as int, d as int) is None,
        },
{
    match a.checked_mul(b) {
        None => None,
        Some(p) => p.checked_div(d),
    }
}

/// `num_integer::Roots::sqrt` on a signed 128-bit integer. The crate
/// documents the result as the truncated principal square root: it is not
/// negative, its square does not exceed the argument, and the square of its
/// successor does. The call panics on a negative argument, which `requires`
/// leaves out.
#[verifier::external_body]
fn roots_sqrt(n: i128) -> (r: i128)
    requires
        n >= 0,
    ensures
        r >= 0,
        r * r <= n,
        n < (r + 1) * (r + 1),
{
    num_integer::Roots::sqrt(&n)
}

/// The integer square root of `n`, rounded down; `None` for a negative `n`.
pub fn checked_sqrt(n: i128) -> (r: Option<i128>)
    ensures
        match r {
            Some(s) => n >= 0 && s == floor_sqrt(n as int),
            None => n < 0,
        },
{
    if n < 0 {
        None
    } else {
        let s = roots_sqrt(n);
        proof {
            lemma_floor_sqrt_unique(n as int, s as int);
        }
        Some(s)
    }
}

} // verus!
