use vstd::prelude::*;

use crate::arith::{
    lemma_div_at_most, lemma_quotient_bounds, lemma_share_of_reserve, lemma_truncate_at_most,
    lemma_truncate_small,
};
use crate::instructions::add_liquidity::{
    deposit_outcome, floor_sqrt, lemma_floor_sqrt, lp_minted_for, min_int,
};
use crate::instructions::add_liquidity::deposit_update;
use crate::instructions::remove_liquidity::{withdrawal_outcome, withdrawal_update};
use crate::error::ErrorCode;
use crate::flow::{
    add_begin, add_step, remove_begin, remove_step, Action, AddLiquidityFlow, AddStage,
    CallOutcome, RemoveLiquidityFlow, RemoveStage, TokenCall,
};
use crate::instructions::remove_liquidity::withdrawal_quote;
use crate::state::Balances;

verus! {

/// A pool that is consistent can always price a deposit: whenever LP tokens are out,
/// both reserves are non-zero.
pub proof fn lemma_consistent_pool_can_price_deposit(b: Balances)
    requires
        b.is_consistent(),
    ensures
        b.can_price_deposit(),
{
}

/// A successful deposit leaves a consistent pool consistent.
pub proof fn lemma_deposit_keeps_pool_consistent(b: Balances, amount_a: u64, amount_b: u64)
    requires
        b.is_consistent(),
    ensures
        deposit_outcome(b, amount_a, amount_b) matches Ok((nb, _)) ==> nb.is_consistent(),
{
}

/// A successful withdrawal leaves a consistent pool consistent: it empties both reserves
/// exactly when it burns the whole LP supply.
pub proof fn lemma_withdrawal_keeps_pool_consistent(b: Balances, lp_amount: u64)
    requires
        b.is_consistent(),
    ensures
        withdrawal_outcome(b, lp_amount) matches Ok((nb, _, _)) ==> nb.is_consistent(),
{
    if withdrawal_outcome(b, lp_amount) is Ok {
        let s = b.total_lp_supply as int;
        let lp = lp_amount as int;
        lemma_share_of_reserve(b.token_a_amount as int, lp, s);
        lemma_share_of_reserve(b.token_b_amount as int, lp, s);
        lemma_truncate_small(b.token_a_amount * lp / s);
        lemma_truncate_small(b.token_b_amount * lp / s);
    }
}

/// The first deposit into an empty pool mints the integer square root of the product of
/// the two amounts, and the pool then holds exactly what was deposited.
pub proof fn lemma_first_deposit(b: Balances, amount_a: u64, amount_b: u64)
    requires
        b.is_empty(),
        amount_a > 0,
        amount_b > 0,
    ensures
        deposit_outcome(b, amount_a, amount_b) == Ok::<(Balances, u64), ErrorCode>(
            (
                Balances {
                    token_a_amount: amount_a,
                    token_b_amount: amount_b,
                    total_lp_supply: floor_sqrt((amount_a * amount_b) as nat) as u64,
                },
                floor_sqrt((amount_a * amount_b) as nat) as u64,
            ),
        ),
        floor_sqrt((amount_a * amount_b) as nat) >= 1,
        floor_sqrt((amount_a * amount_b) as nat) <= u64::MAX,
{
    let n: nat = (amount_a * amount_b) as nat;
    lemma_floor_sqrt(n);
    let r = floor_sqrt(n);
    assert(n >= 1) by (nonlinear_arith)
        requires
            amount_a >= 1,
            amount_b >= 1,
            n == amount_a * amount_b,
    ;
    assert(n <= 0xffff_ffff_ffff_ffff * 0xffff_ffff_ffff_ffff) by (nonlinear_arith)
        requires
            amount_a <= 0xffff_ffff_ffff_ffff,
            amount_b <= 0xffff_ffff_ffff_ffff,
            n == amount_a * amount_b,
    ;
    assert(r >= 1) by (nonlinear_arith)
        requires
            n < (r + 1) * (r + 1),
            n >= 1,
            r >= 0,
    ;
    assert(r <= 0xffff_ffff_ffff_ffff) by (nonlinear_arith)
        requires
            r * r <= n,
            n <= 0xffff_ffff_ffff_ffff * 0xffff_ffff_ffff_ffff,
            r >= 0,
    ;
    lemma_truncate_small(r as int);
}

/// A deposit into a pool with LP tokens out never lowers the reserves behind each LP token:
/// the LP tokens it mints are rounded down in the pool's favour.
pub proof fn lemma_deposit_does_not_dilute(b: Balances, amount_a: u64, amount_b: u64)
    requires
        b.is_consistent(),
        b.total_lp_supply > 0,
    ensures
        deposit_outcome(b, amount_a, amount_b) matches Ok((nb, _)) ==> {
            &&& nb.token_a_amount * b.total_lp_supply >= b.token_a_amount * nb.total_lp_supply
            &&& nb.token_b_amount * b.total_lp_supply >= b.token_b_amount * nb.total_lp_supply
        },
{
    if deposit_outcome(b, amount_a, amount_b) is Ok {
        let s = b.total_lp_supply as int;
        let ra = b.token_a_amount as int;
        let rb = b.token_b_amount as int;
        let qa = amount_a * s / ra;
        let qb = amount_b * s / rb;
        let lp = lp_minted_for(b, amount_a, amount_b) as int;
        assert(amount_a * s >= 0 && amount_b * s >= 0) by (nonlinear_arith)
            requires
                s > 0,
        ;
        lemma_quotient_bounds(amount_a * s, ra);
        lemma_quotient_bounds(amount_b * s, rb);
        lemma_truncate_at_most(min_int(qa, qb));
        assert(lp <= qa && lp <= qb);
        assert((ra + amount_a) * s >= ra * (s + lp)) by (nonlinear_arith)
            requires
                lp <= qa,
                qa * ra <= amount_a * s,
                ra > 0,
                lp >= 0,
        ;
        assert((rb + amount_b) * s >= rb * (s + lp)) by (nonlinear_arith)
            requires
                lp <= qb,
                qb * rb <= amount_b * s,
                rb > 0,
                lp >= 0,
        ;
    }
}

/// A withdrawal never lowers the reserves behind each remaining LP token: its payouts are
/// rounded down in the pool's favour.
pub proof fn lemma_withdrawal_does_not_dilute(b: Balances, lp_amount: u64)
    ensures
        withdrawal_outcome(b, lp_amount) matches Ok((nb, _, _)) ==> {
            &&& nb.token_a_amount * b.total_lp_supply >= b.token_a_amount * nb.total_lp_supply
            &&& nb.token_b_amount * b.total_lp_supply >= b.token_b_amount * nb.total_lp_supply
        },
{
    if withdrawal_outcome(b, lp_amount) is Ok {
        let s = b.total_lp_supply as int;
        let lp = lp_amount as int;
        let ra = b.token_a_amount as int;
        let rb = b.token_b_amount as int;
        lemma_share_of_reserve(ra, lp, s);
        lemma_share_of_reserve(rb, lp, s);
        lemma_truncate_small(ra * lp / s);
        lemma_truncate_small(rb * lp / s);
        let oa = ra * lp / s;
        let ob = rb * lp / s;
        assert((ra - oa) * s >= ra * (s - lp)) by (nonlinear_arith)
            requires
                oa * s <= ra * lp,
        ;
        assert((rb - ob) * s >= rb * (s - lp)) by (nonlinear_arith)
            requires
                ob * s <= rb * lp,
        ;
    }
}

/// Burning the whole LP supply of a consistent pool pays out both reserves in full and
/// leaves the pool empty.
pub proof fn lemma_full_withdrawal_empties_pool(b: Balances)
    requires
        b.is_consistent(),
        b.total_lp_supply > 0,
    ensures
        withdrawal_outcome(b, b.total_lp_supply) == Ok::<(Balances, u64, u64), ErrorCode>(
            (
                Balances { token_a_amount: 0, token_b_amount: 0, total_lp_supply: 0 },
                b.token_a_amount,
                b.token_b_amount,
            ),
        ),
{
    let s = b.total_lp_supply as int;
    lemma_share_of_reserve(b.token_a_amount as int, s, s);
    lemma_share_of_reserve(b.token_b_amount as int, s, s);
    lemma_truncate_small(b.token_a_amount as int);
    lemma_truncate_small(b.token_b_amount as int);
}

/// Adding liquidity to a consistent pool and then burning the LP tokens it minted never
/// pays out more of either token than was deposited.
pub proof fn lemma_deposit_then_withdraw_returns_at_most_deposit(
    b: Balances,
    amount_a: u64,
    amount_b: u64,
)
    requires
        b.is_consistent(),
    ensures
        deposit_outcome(b, amount_a, amount_b) matches Ok((nb, lp)) ==> (withdrawal_outcome(
            nb,
            lp,
        ) matches Ok((_, out_a, out_b)) ==> out_a <= amount_a && out_b <= amount_b),
{
    if deposit_outcome(b, amount_a, amount_b) is Ok {
        let (nb, lp_u) = deposit_outcome(b, amount_a, amount_b)->Ok_0;
        let lp = lp_u as int;
        let s = b.total_lp_supply as int;
        let ra = b.token_a_amount as int;
        let rb = b.token_b_amount as int;
        let a = amount_a as int;
        let bb = amount_b as int;
        let ns = s + lp;
        assert(nb.total_lp_supply == ns);
        assert(ns > 0);
        // Each deposit amount buys at least its share of the minted LP tokens.
        if s == 0 {
            assert(ra == 0 && rb == 0);
            assert((ra + a) * lp <= a * ns) by (nonlinear_arith)
                requires
                    ra == 0,
                    s == 0,
                    ns == s + lp,
            ;
            assert((rb + bb) * lp <= bb * ns) by (nonlinear_arith)
                requires
                    rb == 0,
                    s == 0,
                    ns == s + lp,
            ;
        } else {
            let qa = a * s / ra;
            let qb = bb * s / rb;
            assert(a * s >= 0 && bb * s >= 0) by (nonlinear_arith)
                requires
                    s > 0,
                    a >= 0,
                    bb >= 0,
            ;
            lemma_quotient_bounds(a * s, ra);
            lemma_quotient_bounds(bb * s, rb);
            lemma_truncate_at_most(min_int(qa, qb));
            assert((ra + a) * lp <= a * ns) by (nonlinear_arith)
                requires
                    lp <= qa,
                    qa * ra <= a * s,
                    ra > 0,
                    lp >= 0,
                    ns == s + lp,
            ;
            assert((rb + bb) * lp <= bb * ns) by (nonlinear_arith)
                requires
                    lp <= qb,
                    qb * rb <= bb * s,
                    rb > 0,
                    lp >= 0,
                    ns == s + lp,
            ;
        }
        assert((ra + a) * lp >= 0 && (rb + bb) * lp >= 0) by (nonlinear_arith)
            requires
                ra >= 0,
                a >= 0,
                rb >= 0,
                bb >= 0,
                lp >= 0,
        ;
        lemma_div_at_most((ra + a) * lp, ns, a);
        lemma_div_at_most((rb + bb) * lp, ns, bb);
        lemma_truncate_at_most((ra + a) * lp / ns);
        lemma_truncate_at_most((rb + bb) * lp / ns);
        assert(a * ns == ns * a) by (nonlinear_arith);
    }
}

/// The token calls an add-liquidity flow asks for, and the action it settles on, when each
/// of at most `fuel` calls succeeds.
pub open spec fn add_settle(f: AddLiquidityFlow, action: Action, fuel: nat) -> (
    Seq<TokenCall>,
    Action,
)
    decreases fuel,
{
    match action {
        Action::Call(c) => if fuel == 0 {
            (seq![], action)
        } else {
            let (f2, a2) = add_step(f, CallOutcome::Succeeded);
            let (calls, last) = add_settle(f2, a2, (fuel - 1) as nat);
            (seq![c] + calls, last)
        },
        _ => (seq![], action),
    }
}

/// The token calls a remove-liquidity flow asks for, and the action it settles on, when
/// each of at most `fuel` calls succeeds.
pub open spec fn remove_settle(f: RemoveLiquidityFlow, action: Action, fuel: nat) -> (
    Seq<TokenCall>,
    Action,
)
    decreases fuel,
{
    match action {
        Action::Call(c) => if fuel == 0 {
            (seq![], action)
        } else {
            let (f2, a2) = remove_step(f, CallOutcome::Succeeded);
            let (calls, last) = remove_settle(f2, a2, (fuel - 1) as nat);
            (seq![c] + calls, last)
        },
        _ => (seq![], action),
    }
}

/// When every token call succeeds, an add-liquidity flow deposits both amounts, mints the
/// LP tokens of `deposit_outcome` and commits its counters; when `deposit_outcome` is an
/// error, the flow rejects with that error after exactly the calls that precede the check.
pub proof fn lemma_add_flow_follows_outcome(b: Balances, amount_a: u64, amount_b: u64)
    ensures
        ({
            let (f, first) = add_begin(b, amount_a, amount_b);
            let (calls, last) = add_settle(f, first, 3);
            let lp = lp_minted_for(b, amount_a, amount_b);
            match deposit_outcome(b, amount_a, amount_b) {
                Ok((nb, minted)) => {
                    &&& calls == seq![
                        TokenCall::DepositA(amount_a),
                        TokenCall::DepositB(amount_b),
                        TokenCall::MintLp(minted),
                    ]
                    &&& last == Action::Commit(nb)
                },
                Err(e) => {
                    &&& last == Action::Reject(e)
                    &&& e == ErrorCode::ZeroAmount ==> calls == Seq::<TokenCall>::empty()
                    &&& e == ErrorCode::InsufficientLiquidityMinted ==> calls == seq![
                        TokenCall::DepositA(amount_a),
                        TokenCall::DepositB(amount_b),
                    ]
                    &&& e == ErrorCode::MathOverflow ==> calls == seq![
                        TokenCall::DepositA(amount_a),
                        TokenCall::DepositB(amount_b),
                        TokenCall::MintLp(lp),
                    ]
                },
            }
        }),
{
    reveal_with_fuel(add_settle, 4);
    let (f, first) = add_begin(b, amount_a, amount_b);
    if amount_a != 0 && amount_b != 0 {
        let (f1, a1) = add_step(f, CallOutcome::Succeeded);
        let (f2, a2) = add_step(f1, CallOutcome::Succeeded);
        let (f3, a3) = add_step(f2, CallOutcome::Succeeded);
        assert(add_settle(f3, a3, 0) == (Seq::<TokenCall>::empty(), a3));
    }
}

/// When every token call succeeds, a remove-liquidity flow burns the LP tokens, pays out
/// the two amounts of `withdrawal_outcome` and commits its counters; when the withdrawal
/// is refused before any token moves, the flow rejects without asking for a call.
pub proof fn lemma_remove_flow_follows_outcome(b: Balances, lp_amount: u64)
    ensures
        ({
            let (f, first) = remove_begin(b, lp_amount);
            let (calls, last) = remove_settle(f, first, 3);
            &&& withdrawal_outcome(b, lp_amount) matches Ok((nb, out_a, out_b)) ==> {
                &&& calls == seq![
                    TokenCall::BurnLp(lp_amount),
                    TokenCall::WithdrawA(out_a),
                    TokenCall::WithdrawB(out_b),
                ]
                &&& last == Action::Commit(nb)
            }
            &&& withdrawal_outcome(b, lp_amount) matches Err(e) ==> last == Action::Reject(e)
            &&& withdrawal_quote(b, lp_amount) is Err ==> calls == Seq::<TokenCall>::empty()
            &&& withdrawal_quote(b, lp_amount) matches Ok((out_a, out_b)) ==> calls == seq![
                TokenCall::BurnLp(lp_amount),
                TokenCall::WithdrawA(out_a),
                TokenCall::WithdrawB(out_b),
            ]
        }),
{
    reveal_with_fuel(remove_settle, 4);
    let (f, first) = remove_begin(b, lp_amount);
    if withdrawal_quote(b, lp_amount) is Ok {
        let (f1, a1) = remove_step(f, CallOutcome::Succeeded);
        let (f2, a2) = remove_step(f1, CallOutcome::Succeeded);
        let (f3, a3) = remove_step(f2, CallOutcome::Succeeded);
        assert(remove_settle(f3, a3, 0) == (Seq::<TokenCall>::empty(), a3));
    }
}

/// A token call that fails ends either instruction at once: the flow aborts, so the
/// driver passes the call's error on and writes nothing into the pool.
pub proof fn lemma_failed_call_aborts(add: AddLiquidityFlow, remove: RemoveLiquidityFlow)
    ensures
        add_step(add, CallOutcome::Failed).1 == Action::Abort,
        add_step(add, CallOutcome::Failed).0.stage == AddStage::Finished,
        remove_step(remove, CallOutcome::Failed).1 == Action::Abort,
        remove_step(remove, CallOutcome::Failed).0.stage == RemoveStage::Finished,
{
}

/// The first deposit into an empty pool mints the largest amount whose square does not
/// exceed the product of the two deposited amounts.
pub proof fn lemma_first_deposit_mints_root_of_product(amount_a: u64, amount_b: u64)
    requires
        amount_a > 0,
        amount_b > 0,
    ensures
        deposit_outcome(
            Balances { token_a_amount: 0, token_b_amount: 0, total_lp_supply: 0 },
            amount_a,
            amount_b,
        ) matches Ok((nb, lp)) && {
            &&& lp * lp <= amount_a * amount_b < (lp + 1) * (lp + 1)
            &&& nb == Balances {
                token_a_amount: amount_a,
                token_b_amount: amount_b,
                total_lp_supply: lp,
            }
        },
{
    let e = Balances { token_a_amount: 0, token_b_amount: 0, total_lp_supply: 0 };
    lemma_first_deposit(e, amount_a, amount_b);
    lemma_floor_sqrt((amount_a * amount_b) as nat);
}

/// A deposit into a pool with LP tokens out mints exactly the smaller of the two
/// proportional shares `amount_a * supply / reserve_a` and `amount_b * supply / reserve_b`,
/// reduced to its low 64 bits.
pub proof fn lemma_deposit_mints_smaller_share(b: Balances, amount_a: u64, amount_b: u64)
    requires
        b.total_lp_supply > 0,
        b.token_a_amount > 0,
        b.token_b_amount > 0,
    ensures
        ({
            let s = b.total_lp_supply as int;
            let share_a = amount_a * s / (b.token_a_amount as int);
            let share_b = amount_b * s / (b.token_b_amount as int);
            let smaller = if share_a <= share_b {
                share_a
            } else {
                share_b
            };
            &&& lp_minted_for(b, amount_a, amount_b) as int == smaller % 0x1_0000_0000_0000_0000
            &&& smaller <= u64::MAX ==> lp_minted_for(b, amount_a, amount_b) as int == smaller
        }),
{
    let s = b.total_lp_supply as int;
    let share_a = amount_a * s / (b.token_a_amount as int);
    let share_b = amount_b * s / (b.token_b_amount as int);
    let smaller = if share_a <= share_b {
        share_a
    } else {
        share_b
    };
    assert(amount_a * s >= 0 && amount_b * s >= 0) by (nonlinear_arith)
        requires
            s > 0,
    ;
    lemma_quotient_bounds(amount_a * s, b.token_a_amount as int);
    lemma_quotient_bounds(amount_b * s, b.token_b_amount as int);
    assert(smaller == min_int(share_a, share_b));
    vstd::arithmetic::div_mod::lemma_mod_pos_bound(smaller, 0x1_0000_0000_0000_0000);
    if smaller <= u64::MAX {
        lemma_truncate_small(smaller);
    }
}

/// A deposit of two positive amounts into a consistent pool with LP tokens out, whose
/// smaller proportional share fits in `u64`: it is refused for minting nothing when that
/// share is zero, refused for overflow when one of the new counters does not fit in `u64`,
/// and otherwise adds both amounts to the reserves and the share to the LP supply.
pub proof fn lemma_deposit_into_funded_pool(b: Balances, amount_a: u64, amount_b: u64)
    requires
        b.is_consistent(),
        b.total_lp_supply > 0,
        amount_a > 0,
        amount_b > 0,
    ensures
        ({
            let s = b.total_lp_supply as int;
            let share_a = amount_a * s / (b.token_a_amount as int);
            let share_b = amount_b * s / (b.token_b_amount as int);
            let minted = if share_a <= share_b {
                share_a
            } else {
                share_b
            };
            let fits = b.token_a_amount + amount_a <= u64::MAX && b.token_b_amount + amount_b
                <= u64::MAX && s + minted <= u64::MAX;
            minted <= u64::MAX ==> {
                &&& minted == 0 ==> deposit_outcome(b, amount_a, amount_b) == Err::<
                    (Balances, u64),
                    ErrorCode,
                >(ErrorCode::InsufficientLiquidityMinted)
                &&& minted > 0 && !fits ==> deposit_outcome(b, amount_a, amount_b) == Err::<
                    (Balances, u64),
                    ErrorCode,
                >(ErrorCode::MathOverflow)
                &&& minted > 0 && fits ==> deposit_outcome(b, amount_a, amount_b) == Ok::<
                    (Balances, u64),
                    ErrorCode,
                >(
                    (
                        Balances {
                            token_a_amount: (b.token_a_amount + amount_a) as u64,
                            token_b_amount: (b.token_b_amount + amount_b) as u64,
                            total_lp_supply: (s + minted) as u64,
                        },
                        minted as u64,
                    ),
                )
            }
        }),
{
    lemma_deposit_mints_smaller_share(b, amount_a, amount_b);
}

/// A deposit that names a zero amount is refused as such, whatever the pool holds.
pub proof fn lemma_zero_deposit_refused(b: Balances, amount: u64)
    ensures
        deposit_outcome(b, 0, amount) == Err::<(Balances, u64), ErrorCode>(ErrorCode::ZeroAmount),
        deposit_outcome(b, amount, 0) == Err::<(Balances, u64), ErrorCode>(ErrorCode::ZeroAmount),
{
}

/// Adding a deposit to any counters succeeds exactly when the three sums fit in `u64`,
/// and then gives those sums.
pub proof fn lemma_deposit_update_adds(b: Balances, amount_a: u64, amount_b: u64, lp: u64)
    ensures
        ({
            let sum_a = b.token_a_amount + amount_a;
            let sum_b = b.token_b_amount + amount_b;
            let sum_s = b.total_lp_supply + lp;
            &&& sum_a <= u64::MAX && sum_b <= u64::MAX && sum_s <= u64::MAX ==> deposit_update(
                b,
                amount_a,
                amount_b,
                lp,
            ) == Ok::<Balances, ErrorCode>(
                Balances {
                    token_a_amount: sum_a as u64,
                    token_b_amount: sum_b as u64,
                    total_lp_supply: sum_s as u64,
                },
            )
            &&& !(sum_a <= u64::MAX && sum_b <= u64::MAX && sum_s <= u64::MAX) ==> deposit_update(
                b,
                amount_a,
                amount_b,
                lp,
            ) == Err::<Balances, ErrorCode>(ErrorCode::MathOverflow)
        }),
{
}

/// Taking a withdrawal off any counters succeeds exactly when none of the three
/// subtractions goes below zero, and then gives the three differences.
pub proof fn lemma_withdrawal_update_subtracts(
    b: Balances,
    lp_amount: u64,
    out_a: u64,
    out_b: u64,
)
    ensures
        ({
            let ok = out_a <= b.token_a_amount && out_b <= b.token_b_amount && lp_amount
                <= b.total_lp_supply;
            &&& ok ==> withdrawal_update(b, lp_amount, out_a, out_b) == Ok::<Balances, ErrorCode>(
                Balances {
                    token_a_amount: (b.token_a_amount - out_a) as u64,
                    token_b_amount: (b.token_b_amount - out_b) as u64,
                    total_lp_supply: (b.total_lp_supply - lp_amount) as u64,
                },
            )
            &&& !ok ==> withdrawal_update(b, lp_amount, out_a, out_b) == Err::<Balances, ErrorCode>(
                ErrorCode::MathOverflow,
            )
        }),
{
}

/// Burning `lp_amount` LP tokens, at most the whole supply, quotes the proportional shares
/// `reserve * lp_amount / supply` of both reserves; it is refused for paying nothing exactly
/// when one of them is zero, and otherwise succeeds and takes exactly those shares and the
/// burnt LP tokens off the counters.
pub proof fn lemma_partial_withdrawal(b: Balances, lp_amount: u64)
    requires
        b.total_lp_supply > 0,
        0 < lp_amount <= b.total_lp_supply,
    ensures
        ({
            let s = b.total_lp_supply as int;
            let pay_a = b.token_a_amount * lp_amount / s;
            let pay_b = b.token_b_amount * lp_amount / s;
            &&& pay_a <= b.token_a_amount && pay_b <= b.token_b_amount
            &&& pay_a > 0 && pay_b > 0 ==> withdrawal_quote(b, lp_amount) == Ok::<
                (u64, u64),
                ErrorCode,
            >((pay_a as u64, pay_b as u64))
            &&& pay_a > 0 && pay_b > 0 ==> withdrawal_outcome(b, lp_amount) == Ok::<
                (Balances, u64, u64),
                ErrorCode,
            >(
                (
                    Balances {
                        token_a_amount: (b.token_a_amount - pay_a) as u64,
                        token_b_amount: (b.token_b_amount - pay_b) as u64,
                        total_lp_supply: (s - lp_amount) as u64,
                    },
                    pay_a as u64,
                    pay_b as u64,
                ),
            )
            &&& (pay_a == 0 || pay_b == 0) ==> withdrawal_quote(b, lp_amount) == Err::<
                (u64, u64),
                ErrorCode,
            >(ErrorCode::InsufficientLiquidityMinted)
            &&& (pay_a == 0 || pay_b == 0) ==> withdrawal_outcome(b, lp_amount) == Err::<
                (Balances, u64, u64),
                ErrorCode,
            >(ErrorCode::InsufficientLiquidityMinted)
        }),
{
    let s = b.total_lp_supply as int;
    let lp = lp_amount as int;
    lemma_share_of_reserve(b.token_a_amount as int, lp, s);
    lemma_share_of_reserve(b.token_b_amount as int, lp, s);
    lemma_truncate_small(b.token_a_amount * lp / s);
    lemma_truncate_small(b.token_b_amount * lp / s);
}

/// A withdrawal that burns no LP tokens is refused as such, and one from a pool without
/// LP tokens is refused for lack of liquidity.
pub proof fn lemma_withdrawal_refusals(b: Balances, lp_amount: u64)
    ensures
        withdrawal_quote(b, 0) == Err::<(u64, u64), ErrorCode>(ErrorCode::ZeroAmount),
        b.total_lp_supply == 0 && lp_amount > 0 ==> withdrawal_quote(b, lp_amount) == Err::<
            (u64, u64),
            ErrorCode,
        >(ErrorCode::InsufficientLiquidityMinted),
{
}

/// Burning any positive number of LP tokens from a pool with LP tokens out quotes the
/// proportional shares `reserve * lp_amount / supply`, each reduced to its low 64 bits, and
/// is refused for paying nothing exactly when one of them is zero.
pub proof fn lemma_withdrawal_quote_shares(b: Balances, lp_amount: u64)
    requires
        b.total_lp_supply > 0,
        lp_amount > 0,
    ensures
        ({
            let s = b.total_lp_supply as int;
            let pay_a = (b.token_a_amount * lp_amount / s) % 0x1_0000_0000_0000_0000;
            let pay_b = (b.token_b_amount * lp_amount / s) % 0x1_0000_0000_0000_0000;
            &&& pay_a > 0 && pay_b > 0 ==> withdrawal_quote(b, lp_amount) == Ok::<
                (u64, u64),
                ErrorCode,
            >((pay_a as u64, pay_b as u64))
            &&& (pay_a == 0 || pay_b == 0) ==> withdrawal_quote(b, lp_amount) == Err::<
                (u64, u64),
                ErrorCode,
            >(ErrorCode::InsufficientLiquidityMinted)
        }),
{
    let s = b.total_lp_supply as int;
    assert(b.token_a_amount * lp_amount >= 0 && b.token_b_amount * lp_amount >= 0)
        by (nonlinear_arith);
    lemma_quotient_bounds(b.token_a_amount * lp_amount, s);
    lemma_quotient_bounds(b.token_b_amount * lp_amount, s);
    vstd::arithmetic::div_mod::lemma_mod_pos_bound(
        b.token_a_amount * lp_amount / s,
        0x1_0000_0000_0000_0000,
    );
    vstd::arithmetic::div_mod::lemma_mod_pos_bound(
        b.token_b_amount * lp_amount / s,
        0x1_0000_0000_0000_0000,
    );
}

} // verus!
