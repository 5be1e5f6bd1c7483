use vstd::prelude::*;

use crate::arith::lemma_quotient_bounds;
use crate::error::ErrorCode;
use crate::state::Balances;

verus! {

/// `root` is the integer square root of `n`: the largest value whose square is at most `n`.
pub open spec fn is_floor_sqrt(n: int, root: int) -> bool {
    &&& 0 <= root
    &&& root * root <= n
    &&& n < (root + 1) * (root + 1)
}

/// The integer square root of `n`.
pub open spec fn floor_sqrt(n: nat) -> nat {
    (choose|root: int| is_floor_sqrt(n as int, root)) as nat
}

proof fn lemma_floor_sqrt_exists(n: nat)
    ensures
        exists|root: int| is_floor_sqrt(n as int, root),
    decreases n,
{
    if n == 0 {
        assert(is_floor_sqrt(0, 0));
    } else {
        lemma_floor_sqrt_exists((n - 1) as nat);
        let m: int = n - 1;
        let r: int = choose|root: int| is_floor_sqrt(m, root);
        if (r + 1) * (r + 1) <= n {
            assert(is_floor_sqrt(n as int, r + 1)) by (nonlinear_arith)
                requires
                    (r + 1) * (r + 1) <= n,
                    n - 1 < (r + 1) * (r + 1),
                    r >= 0,
            ;
        } else {
            assert(is_floor_sqrt(n as int, r));
        }
    }
}

proof fn lemma_floor_sqrt_unique(n: int, r1: int, r2: int)
    requires
        is_floor_sqrt(n, r1),
        is_floor_sqrt(n, r2),
    ensures
        r1 == r2,
{
    if r1 < r2 {
        assert((r1 + 1) * (r1 + 1) <= r2 * r2) by (nonlinear_arith)
            requires
                0 <= r1 + 1 <= r2,
        ;
    } else if r2 < r1 {
        assert((r2 + 1) * (r2 + 1) <= r1 * r1) by (nonlinear_arith)
            requires
                0 <= r2 + 1 <= r1,
        ;
    }
}

/// `floor_sqrt(n)` is the integer square root of `n`, and no other value is.
pub proof fn lemma_floor_sqrt(n: nat)
    ensures
        is_floor_sqrt(n as int, floor_sqrt(n) as int),
        forall|root: int| is_floor_sqrt(n as int, root) ==> root == floor_sqrt(n),
{
    lemma_floor_sqrt_exists(n);
    assert forall|root: int| is_floor_sqrt(n as int, root) implies root == floor_sqrt(n) by {
        lemma_floor_sqrt_unique(n as int, root, floor_sqrt(n) as int);
    }
}

/// One Newton step from `x` towards the square root of `n` stays at or above the root,
/// and moves strictly down while `x` is above it.
proof fn lemma_newton_step(n: int, x: int)
    requires
        1 <= x <= n,
    ensures
        ({
            let y = (x + n / x) / 2;
            &&& x + n / x <= n + 1
            &&& n < (y + 1) * (y + 1)
            &&& 1 <= y <= n
            &&& n < x * x ==> y < x
        }),
{
    lemma_quotient_bounds(n, x);
    let q = n / x;
    let y = (x + q) / 2;
    assert(q >= 1) by (nonlinear_arith)
        requires
            n < (q + 1) * x,
            x <= n,
            q >= 0,
    ;
    assert(x + q <= n + 1) by (nonlinear_arith)
        requires
            q * x <= n,
            q >= 1,
            x >= 1,
    ;
    assert((x + q + 1) * (x + q + 1) >= 4 * x * (q + 1)) by (nonlinear_arith);
    assert(2 * (y + 1) >= x + q + 1);
    assert(4 * ((y + 1) * (y + 1)) >= (x + q + 1) * (x + q + 1)) by (nonlinear_arith)
        requires
            2 * (y + 1) >= x + q + 1,
            x + q + 1 >= 0,
    ;
    assert(4 * x * (q + 1) > 4 * n) by (nonlinear_arith)
        requires
            n < (q + 1) * x,
    ;
    assert(n < (y + 1) * (y + 1));
    if y < 1 {
        assert(y == 0);
        assert(false);
    }
    if n < x * x {
        assert(q < x) by (nonlinear_arith)
            requires
                q * x <= n,
                n < x * x,
                x >= 1,
        ;
    }
}

/// Integer square root by Newton's method, starting from `n` itself.
pub fn integer_sqrt(n: u128) -> (root: u128)
    requires
        n < u128::MAX,
    ensures
        root == floor_sqrt(n as nat),
        is_floor_sqrt(n as int, root as int),
{
    proof {
        lemma_floor_sqrt(n as nat);
    }
    if n == 0 {
        assert(is_floor_sqrt(0, 0));
        return 0;
    }
    let mut x: u128 = n;
    let mut y: u128 = (x + 1) / 2;
    assert(n / n == 1) by (nonlinear_arith)
        requires
            n > 0,
    ;
    assert(n < (n + 1) * (n + 1)) by (nonlinear_arith)
        requires
            n > 0,
    ;
    while y < x
        invariant
            0 < n < u128::MAX,
            1 <= x <= n,
            y == (x + n / x) / 2,
            n < (x + 1) * (x + 1),
        decreases x,
    {
        proof {
            // the step from `x` to `y` keeps `y` within `1..=n` and above the root
            lemma_newton_step(n as int, x as int);
        }
        x = y;
        proof {
            // the next sum `x + n / x` fits in `u128`
            lemma_newton_step(n as int, x as int);
        }
        y = (x + n / x) / 2;
    }
    proof {
        lemma_newton_step(n as int, x as int);
        assert(is_floor_sqrt(n as int, x as int));
    }
    x
}

/// `x` reduced to its low 64 bits, as a cast to `u64` does.
pub open spec fn truncate_u64(x: int) -> u64 {
    (x % 0x1_0000_0000_0000_0000) as u64
}

/// The smaller of two integers.
pub open spec fn min_int(x: int, y: int) -> int {
    if x <= y {
        x
    } else {
        y
    }
}

/// LP tokens that a deposit of `amount_a` and `amount_b` earns, before it is cast to `u64`:
/// the integer square root of the product of the amounts into an empty pool, otherwise
/// the smaller of the two shares that each amount buys at the current reserves.
pub open spec fn lp_for_deposit(b: Balances, amount_a: u64, amount_b: u64) -> int {
    if b.total_lp_supply == 0 {
        floor_sqrt((amount_a * amount_b) as nat) as int
    } else {
        min_int(
            amount_a * b.total_lp_supply / (b.token_a_amount as int),
            amount_b * b.total_lp_supply / (b.token_b_amount as int),
        )
    }
}

/// LP tokens minted for a deposit: `lp_for_deposit` cast to `u64`.
pub open spec fn lp_minted_for(b: Balances, amount_a: u64, amount_b: u64) -> u64 {
    truncate_u64(lp_for_deposit(b, amount_a, amount_b))
}

/// The counters after a deposit of `amount_a`, `amount_b` that mints `lp`, or the overflow
/// error when one of them leaves the range of `u64`.
pub open spec fn deposit_update(b: Balances, amount_a: u64, amount_b: u64, lp: u64) -> Result<
    Balances,
    ErrorCode,
> {
    if b.token_a_amount + amount_a > u64::MAX || b.token_b_amount + amount_b > u64::MAX
        || b.total_lp_supply + lp > u64::MAX {
        Err(ErrorCode::MathOverflow)
    } else {
        Ok(
            Balances {
                token_a_amount: (b.token_a_amount + amount_a) as u64,
                token_b_amount: (b.token_b_amount + amount_b) as u64,
                total_lp_supply: (b.total_lp_supply + lp) as u64,
            },
        )
    }
}

/// What adding liquidity does to the counters, and how many LP tokens it mints, when
/// every token transfer and the mint succeed.
pub open spec fn deposit_outcome(b: Balances, amount_a: u64, amount_b: u64) -> Result<
    (Balances, u64),
    ErrorCode,
> {
    if amount_a == 0 || amount_b == 0 {
        Err(ErrorCode::ZeroAmount)
    } else if lp_minted_for(b, amount_a, amount_b) == 0 {
        Err(ErrorCode::InsufficientLiquidityMinted)
    } else {
        let lp = lp_minted_for(b, amount_a, amount_b);
        match deposit_update(b, amount_a, amount_b, lp) {
            Ok(nb) => Ok((nb, lp)),
            Err(e) => Err(e),
        }
    }
}

/// Refuses a deposit in which either amount is zero.
pub fn check_deposit_amounts(amount_a: u64, amount_b: u64) -> (r: Result<(), ErrorCode>)
    ensures
        r is Err <==> (amount_a == 0 || amount_b == 0),
        r is Err ==> r == Err::<(), ErrorCode>(ErrorCode::ZeroAmount),
{
    if amount_a > 0 && amount_b > 0 {
        Ok(())
    } else {
        Err(ErrorCode::ZeroAmount)
    }
}

proof fn lemma_product_fits(x: u64, y: u64)
    ensures
        x * y <= 0xffff_ffff_ffff_fffe_0000_0000_0000_0001,
{
    assert(x * y <= 0xffff_ffff_ffff_ffff * 0xffff_ffff_ffff_ffff) by (nonlinear_arith)
        requires
            x <= 0xffff_ffff_ffff_ffff,
            y <= 0xffff_ffff_ffff_ffff,
    ;
}

/// The low 64 bits of a `u128`.
fn low_u64(x: u128) -> (r: u64)
    ensures
        r == truncate_u64(x as int),
{
    let r = x as u64;
    assert(r == (x % 0x1_0000_0000_0000_0000) as u64) by (bit_vector)
        requires
            r == x as u64,
    ;
    r
}

/// LP tokens to mint for a deposit of `amount_a` and `amount_b` into a pool with counters `b`.
pub fn lp_to_mint(b: Balances, amount_a: u64, amount_b: u64) -> (lp: u64)
    requires
        b.can_price_deposit(),
    ensures
        lp == lp_minted_for(b, amount_a, amount_b),
{
    proof {
        lemma_product_fits(amount_a, amount_b);
        lemma_product_fits(amount_a, b.total_lp_supply);
        lemma_product_fits(amount_b, b.total_lp_supply);
    }
    if b.total_lp_supply == 0 {
        let product: u128 = (amount_a as u128) * (amount_b as u128);
        let root = integer_sqrt(product);
        assert(root < 0x1_0000_0000_0000_0000) by (nonlinear_arith)
            requires
                root * root <= product,
                product <= 0xffff_ffff_ffff_fffe_0000_0000_0000_0001,
                root >= 0,
        ;
        low_u64(root)
    } else {
        let from_a: u128 = (amount_a as u128) * (b.total_lp_supply as u128) / (
        b.token_a_amount as u128);
        let from_b: u128 = (amount_b as u128) * (b.total_lp_supply as u128) / (
        b.token_b_amount as u128);
        let smaller: u128 = if from_a <= from_b {
            from_a
        } else {
            from_b
        };
        low_u64(smaller)
    }
}

/// Adds a deposit of `amount_a`, `amount_b` that mints `lp` to the counters `b`.
pub fn apply_deposit(b: Balances, amount_a: u64, amount_b: u64, lp: u64) -> (r: Result<
    Balances,
    ErrorCode,
>)
    ensures
        r == deposit_update(b, amount_a, amount_b, lp),
{
    let token_a_amount = match b.token_a_amount.checked_add(amount_a) {
        Some(v) => v,
        None => return Err(ErrorCode::MathOverflow),
    };
    let token_b_amount = match b.token_b_amount.checked_add(amount_b) {
        Some(v) => v,
        None => return Err(ErrorCode::MathOverflow),
    };
    let total_lp_supply = match b.total_lp_supply.checked_add(lp) {
        Some(v) => v,
        None => return Err(ErrorCode::MathOverflow),
    };
    Ok(Balances { token_a_amount, token_b_amount, total_lp_supply })
}

/// Adds liquidity to a pool with counters `b`: the new counters and the LP tokens minted,
/// on the assumption that the two deposits into the vaults and the mint all succeed.
pub fn add_liquidity(b: Balances, amount_a: u64, amount_b: u64) -> (r: Result<
    (Balances, u64),
    ErrorCode,
>)
    requires
        amount_a > 0 && amount_b > 0 ==> b.can_price_deposit(),
    ensures
        r == deposit_outcome(b, amount_a, amount_b),
{
    check_deposit_amounts(amount_a, amount_b)?;
    let lp = lp_to_mint(b, amount_a, amount_b);
    if lp == 0 {
        return Err(ErrorCode::InsufficientLiquidityMinted);
    }
    let nb = apply_deposit(b, amount_a, amount_b, lp)?;
    Ok((nb, lp))
}

} // verus!
