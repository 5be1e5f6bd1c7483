use vstd::prelude::*;

use crate::error::ErrorCode;
use crate::instructions::add_liquidity::truncate_u64;
use crate::state::Balances;

verus! {

/// Token A paid out for burning `lp_amount` LP tokens: the proportional share
/// `token_a_amount * lp_amount / total_lp_supply`, cast to `u64`.
pub open spec fn payout_a(b: Balances, lp_amount: u64) -> u64 {
    truncate_u64(b.token_a_amount * lp_amount / (b.total_lp_supply as int))
}

/// Token B paid out for burning `lp_amount` LP tokens: the proportional share
/// `token_b_amount * lp_amount / total_lp_supply`, cast to `u64`.
pub open spec fn payout_b(b: Balances, lp_amount: u64) -> u64 {
    truncate_u64(b.token_b_amount * lp_amount / (b.total_lp_supply as int))
}

/// The payouts for burning `lp_amount` LP tokens, or the error that refuses the burn
/// before any token moves.
pub open spec fn withdrawal_quote(b: Balances, lp_amount: u64) -> Result<(u64, u64), ErrorCode> {
    if lp_amount == 0 {
        Err(ErrorCode::ZeroAmount)
    } else if b.total_lp_supply == 0 {
        Err(ErrorCode::InsufficientLiquidityMinted)
    } else if payout_a(b, lp_amount) == 0 || payout_b(b, lp_amount) == 0 {
        Err(ErrorCode::InsufficientLiquidityMinted)
    } else {
        Ok((payout_a(b, lp_amount), payout_b(b, lp_amount)))
    }
}

/// The counters after `out_a`, `out_b` leave the vaults and `lp_amount` LP tokens are
/// burnt, or the overflow error when one of them would drop below zero.
pub open spec fn withdrawal_update(b: Balances, lp_amount: u64, out_a: u64, out_b: u64) -> Result<
    Balances,
    ErrorCode,
> {
    if out_a > b.token_a_amount || out_b > b.token_b_amount || lp_amount > b.total_lp_supply {
        Err(ErrorCode::MathOverflow)
    } else {
        Ok(
            Balances {
                token_a_amount: (b.token_a_amount - out_a) as u64,
                token_b_amount: (b.token_b_amount - out_b) as u64,
                total_lp_supply: (b.total_lp_supply - lp_amount) as u64,
            },
        )
    }
}

/// What removing liquidity does to the counters, and what it pays out in each token,
/// when the burn and both transfers out of the vaults succeed.
pub open spec fn withdrawal_outcome(b: Balances, lp_amount: u64) -> Result<
    (Balances, u64, u64),
    ErrorCode,
> {
    match withdrawal_quote(b, lp_amount) {
        Err(e) => Err(e),
        Ok((out_a, out_b)) => match withdrawal_update(b, lp_amount, out_a, out_b) {
            Ok(nb) => Ok((nb, out_a, out_b)),
            Err(e) => Err(e),
        },
    }
}

/// The proportional share `reserve * lp_amount / supply`, cast to `u64`.
fn proportional_share(reserve: u64, lp_amount: u64, supply: u64) -> (r: u64)
    requires
        supply > 0,
    ensures
        r == truncate_u64(reserve * lp_amount / (supply as int)),
{
    assert(reserve * lp_amount <= 0xffff_ffff_ffff_ffff * 0xffff_ffff_ffff_ffff) by (nonlinear_arith)
        requires
            reserve <= 0xffff_ffff_ffff_ffff,
            lp_amount <= 0xffff_ffff_ffff_ffff,
    ;
    let share: u128 = (reserve as u128) * (lp_amount as u128) / (supply as u128);
    let r = share as u64;
    assert(r == (share % 0x1_0000_0000_0000_0000) as u64) by (bit_vector)
        requires
            r == share as u64,
    ;
    r
}

/// Prices a burn of `lp_amount` LP tokens against the counters `b`.
pub fn quote_withdrawal(b: Balances, lp_amount: u64) -> (r: Result<(u64, u64), ErrorCode>)
    ensures
        r == withdrawal_quote(b, lp_amount),
{
    if lp_amount == 0 {
        return Err(ErrorCode::ZeroAmount);
    }
    if b.total_lp_supply == 0 {
        return Err(ErrorCode::InsufficientLiquidityMinted);
    }
    let out_a = proportional_share(b.token_a_amount, lp_amount, b.total_lp_supply);
    let out_b = proportional_share(b.token_b_amount, lp_amount, b.total_lp_supply);
    if out_a == 0 || out_b == 0 {
        return Err(ErrorCode::InsufficientLiquidityMinted);
    }
    Ok((out_a, out_b))
}

/// Takes a withdrawal of `out_a`, `out_b` that burns `lp_amount` off the counters `b`.
pub fn apply_withdrawal(b: Balances, lp_amount: u64, out_a: u64, out_b: u64) -> (r: Result<
    Balances,
    ErrorCode,
>)
    ensures
        r == withdrawal_update(b, lp_amount, out_a, out_b),
{
    let token_a_amount = match b.token_a_amount.checked_sub(out_a) {
        Some(v) => v,
        None => return Err(ErrorCode::MathOverflow),
    };
    let token_b_amount = match b.token_b_amount.checked_sub(out_b) {
        Some(v) => v,
        None => return Err(ErrorCode::MathOverflow),
    };
    let total_lp_supply = match b.total_lp_supply.checked_sub(lp_amount) {
        Some(v) => v,
        None => return Err(ErrorCode::MathOverflow),
    };
    Ok(Balances { token_a_amount, token_b_amount, total_lp_supply })
}

/// Removes liquidity from a pool with counters `b`: the new counters and the payouts in
/// each token, on the assumption that the burn and both transfers out of the vaults succeed.
pub fn remove_liquidity(b: Balances, lp_amount: u64) -> (r: Result<
    (Balances, u64, u64),
    ErrorCode,
>)
    ensures
        r == withdrawal_outcome(b, lp_amount),
{
    let (out_a, out_b) = quote_withdrawal(b, lp_amount)?;
    let nb = apply_withdrawal(b, lp_amount, out_a, out_b)?;
    Ok((nb, out_a, out_b))
}

} // verus!
