use vstd::arithmetic::div_mod::lemma_fundamental_div_mod;
use vstd::arithmetic::div_mod::lemma_mod_pos_bound;
use vstd::arithmetic::div_mod::lemma_small_mod;
use vstd::prelude::*;

use crate::instructions::add_liquidity::truncate_u64;

verus! {

/// Quotient bounds of integer division by a positive divisor.
pub proof fn lemma_quotient_bounds(n: int, x: int)
    requires
        0 <= n,
        0 < x,
    ensures
        0 <= n / x,
        (n / x) * x <= n,
        n < (n / x + 1) * x,
{
    lemma_fundamental_div_mod(n, x);
    lemma_mod_pos_bound(n, x);
    let q = n / x;
    assert(q * x == x * q) by (nonlinear_arith);
    assert((q + 1) * x == x * q + x) by (nonlinear_arith);
    assert(0 <= q) by (nonlinear_arith)
        requires
            n == x * q + n % x,
            0 <= n % x < x,
            0 <= n,
    ;
}

/// A quotient is at most `k` when the dividend is at most `k` times the divisor.
pub proof fn lemma_div_at_most(n: int, d: int, k: int)
    requires
        0 <= n,
        0 < d,
        n <= k * d,
    ensures
        n / d <= k,
{
    lemma_quotient_bounds(n, d);
    let q = n / d;
    if q > k {
        assert(q * d >= (k + 1) * d) by (nonlinear_arith)
            requires
                q >= k + 1,
                d > 0,
        ;
        assert((k + 1) * d == k * d + d) by (nonlinear_arith);
    }
}

/// The proportional share `r * num / den` with `num <= den` is at most `r`, equals `r`
/// when `num == den`, and is below `r` when `num < den` and `r > 0`.
pub proof fn lemma_share_of_reserve(r: int, num: int, den: int)
    requires
        0 <= r,
        0 <= num <= den,
        0 < den,
    ensures
        r * num / den <= r,
        num == den ==> r * num / den == r,
        num < den && r > 0 ==> r * num / den < r,
        0 <= r * num / den,
        (r * num / den) * den <= r * num,
{
    assert(0 <= r * num <= r * den) by (nonlinear_arith)
        requires
            0 <= r,
            0 <= num <= den,
    ;
    assert(r * den == den * r) by (nonlinear_arith);
    lemma_quotient_bounds(r * num, den);
    lemma_div_at_most(r * num, den, r);
    if num == den {
        assert(r * num / den == r) by (nonlinear_arith)
            requires
                num == den,
                0 < den,
                (r * num / den) * den <= r * num,
                r * num < (r * num / den + 1) * den,
        ;
    }
    if num < den && r > 0 {
        assert(r * num < r * den) by (nonlinear_arith)
            requires
                num < den,
                r > 0,
        ;
        assert(r * num / den < r) by (nonlinear_arith)
            requires
                (r * num / den) * den <= r * num,
                r * num < r * den,
                0 < den,
        ;
    }
}

/// Casting a value that fits in `u64` keeps it.
pub proof fn lemma_truncate_small(x: int)
    requires
        0 <= x < 0x1_0000_0000_0000_0000,
    ensures
        truncate_u64(x) == x,
{
    lemma_small_mod(x as nat, 0x1_0000_0000_0000_0000);
}

/// Casting a non-negative value to `u64` never makes it larger.
pub proof fn lemma_truncate_at_most(x: int)
    requires
        0 <= x,
    ensures
        truncate_u64(x) <= x,
{
    lemma_fundamental_div_mod(x, 0x1_0000_0000_0000_0000);
    lemma_mod_pos_bound(x, 0x1_0000_0000_0000_0000);
    lemma_quotient_bounds(x, 0x1_0000_0000_0000_0000);
}

} // verus!
