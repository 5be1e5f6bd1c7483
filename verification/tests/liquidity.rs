use anchor_v2_example::flow::{
    Action, AddLiquidityFlow, AddStage, CallOutcome, RemoveLiquidityFlow, RemoveStage, TokenCall,
};
use anchor_v2_example::instructions::add_liquidity::{
    add_liquidity, apply_deposit, check_deposit_amounts, integer_sqrt, lp_to_mint,
};
use anchor_v2_example::instructions::init_pool::new_pool;
use anchor_v2_example::instructions::remove_liquidity::{
    apply_withdrawal, quote_withdrawal, remove_liquidity,
};
use anchor_v2_example::{Balances, ErrorCode};

fn bal(a: u64, b: u64, s: u64) -> Balances {
    Balances { token_a_amount: a, token_b_amount: b, total_lp_supply: s }
}

#[test]
fn sqrt_of_small_values() {
    assert_eq!(integer_sqrt(0), 0);
    assert_eq!(integer_sqrt(1), 1);
    assert_eq!(integer_sqrt(2), 1);
    assert_eq!(integer_sqrt(3), 1);
    assert_eq!(integer_sqrt(4), 2);
    assert_eq!(integer_sqrt(15), 3);
    assert_eq!(integer_sqrt(16), 4);
    assert_eq!(integer_sqrt(17), 4);
    assert_eq!(integer_sqrt(1_000_000), 1000);
    assert_eq!(integer_sqrt(999_999), 999);
}

#[test]
fn sqrt_of_largest_product() {
    let m = u64::MAX as u128;
    assert_eq!(integer_sqrt(m * m), m);
    assert_eq!(integer_sqrt(m * m - 1), m - 1);
    assert_eq!(integer_sqrt(u128::MAX - 1), m);
}

#[test]
fn sqrt_matches_definition() {
    for n in 0u128..2000 {
        let r = integer_sqrt(n);
        assert!(r * r <= n && n < (r + 1) * (r + 1));
    }
}

#[test]
fn first_deposit_mints_sqrt_of_product() {
    let r = add_liquidity(bal(0, 0, 0), 100, 400);
    assert_eq!(r, Ok((bal(100, 400, 200), 200)));
    let r = add_liquidity(bal(0, 0, 0), 2, 3);
    assert_eq!(r, Ok((bal(2, 3, 2), 2)));
    let r = add_liquidity(bal(0, 0, 0), u64::MAX, u64::MAX);
    assert_eq!(r, Ok((bal(u64::MAX, u64::MAX, u64::MAX), u64::MAX)));
}

#[test]
fn later_deposit_mints_smaller_share() {
    // from_a = 10 * 200 / 100 = 20, from_b = 10 * 200 / 400 = 5
    let r = add_liquidity(bal(100, 400, 200), 10, 10);
    assert_eq!(r, Ok((bal(110, 410, 205), 5)));
    assert_eq!(lp_to_mint(bal(100, 400, 200), 50, 400), 100);
}

#[test]
fn deposit_share_is_cast_to_u64() {
    // 4 * 2^63 / 1 = 2^65, whose low 64 bits are 0; the other share is larger still.
    let b = bal(1, 1, 1u64 << 63);
    assert_eq!(lp_to_mint(b, 4, 8), 0);
    assert_eq!(add_liquidity(b, 4, 8), Err(ErrorCode::InsufficientLiquidityMinted));
    // 3 * 2^63 = 2^64 + 2^63, whose low 64 bits are 2^63.
    assert_eq!(lp_to_mint(b, 3, 3), 1u64 << 63);
}

#[test]
fn deposit_with_zero_amount_is_refused() {
    assert_eq!(add_liquidity(bal(0, 0, 0), 0, 5), Err(ErrorCode::ZeroAmount));
    assert_eq!(add_liquidity(bal(10, 10, 10), 5, 0), Err(ErrorCode::ZeroAmount));
    assert_eq!(check_deposit_amounts(0, 0), Err(ErrorCode::ZeroAmount));
    assert_eq!(check_deposit_amounts(1, 1), Ok(()));
}

#[test]
fn deposit_too_small_to_mint_is_refused() {
    // 1 * 10 / 1000 = 0
    assert_eq!(
        add_liquidity(bal(1000, 1000, 10), 1, 1),
        Err(ErrorCode::InsufficientLiquidityMinted)
    );
}

#[test]
fn deposit_overflowing_a_reserve_is_refused() {
    // from_a = (MAX / 5) * 10 / (MAX - 5) = 2, from_b = 10; the A reserve then overflows.
    assert_eq!(lp_to_mint(bal(u64::MAX - 5, 10, 10), u64::MAX / 5, 10), 2);
    assert_eq!(
        add_liquidity(bal(u64::MAX - 5, 10, 10), u64::MAX / 5, 10),
        Err(ErrorCode::MathOverflow)
    );
    assert_eq!(apply_deposit(bal(1, u64::MAX, 1), 1, 1, 1), Err(ErrorCode::MathOverflow));
    assert_eq!(apply_deposit(bal(1, 1, u64::MAX), 1, 1, 1), Err(ErrorCode::MathOverflow));
    assert_eq!(apply_deposit(bal(1, 2, 3), 4, 5, 6), Ok(bal(5, 7, 9)));
}

#[test]
fn withdrawal_pays_proportional_share() {
    let r = remove_liquidity(bal(100, 400, 200), 50);
    assert_eq!(r, Ok((bal(75, 300, 150), 25, 100)));
    // 7 * 3 / 10 = 2, 9 * 3 / 10 = 2
    let r = remove_liquidity(bal(7, 9, 10), 3);
    assert_eq!(r, Ok((bal(5, 7, 7), 2, 2)));
}

#[test]
fn withdrawal_errors() {
    assert_eq!(remove_liquidity(bal(100, 400, 200), 0), Err(ErrorCode::ZeroAmount));
    assert_eq!(
        remove_liquidity(bal(0, 0, 0), 5),
        Err(ErrorCode::InsufficientLiquidityMinted)
    );
    // 100 * 1 / 200 = 0
    assert_eq!(
        remove_liquidity(bal(100, 400, 200), 1),
        Err(ErrorCode::InsufficientLiquidityMinted)
    );
    // burning more LP tokens than exist pays out more than the reserves hold
    assert_eq!(remove_liquidity(bal(100, 400, 200), 300), Err(ErrorCode::MathOverflow));
    assert_eq!(quote_withdrawal(bal(100, 400, 200), 300), Ok((150, 600)));
    assert_eq!(apply_withdrawal(bal(10, 10, 10), 11, 1, 1), Err(ErrorCode::MathOverflow));
}

#[test]
fn full_withdrawal_empties_the_pool() {
    assert_eq!(remove_liquidity(bal(100, 400, 200), 200), Ok((bal(0, 0, 0), 100, 400)));
    assert_eq!(
        remove_liquidity(bal(u64::MAX, 3, u64::MAX), u64::MAX),
        Ok((bal(0, 0, 0), u64::MAX, 3))
    );
}

#[test]
fn operations_keep_pool_consistent() {
    let consistent = |b: Balances| {
        if b.total_lp_supply == 0 {
            b.token_a_amount == 0 && b.token_b_amount == 0
        } else {
            b.token_a_amount > 0 && b.token_b_amount > 0
        }
    };
    let mut b = bal(0, 0, 0);
    let steps: [(bool, u64, u64); 6] =
        [(true, 9, 16), (true, 3, 7), (false, 5, 0), (true, 100, 1), (false, 7, 0), (false, 6, 0)];
    for (deposit, x, y) in steps {
        if deposit {
            if let Ok((nb, _)) = add_liquidity(b, x, y) {
                b = nb;
            }
        } else if let Ok((nb, _, _)) = remove_liquidity(b, x) {
            b = nb;
        }
        assert!(consistent(b));
    }
    let s = b.total_lp_supply;
    b = remove_liquidity(b, s).unwrap().0;
    assert_eq!(b, bal(0, 0, 0));
}

#[test]
fn deposit_and_withdrawal_never_dilute_shares() {
    let b = bal(1000, 3000, 700);
    let (nb, _) = add_liquidity(b, 333, 777).unwrap();
    assert!(nb.token_a_amount as u128 * 700 >= 1000 * nb.total_lp_supply as u128);
    assert!(nb.token_b_amount as u128 * 700 >= 3000 * nb.total_lp_supply as u128);
    let (wb, _, _) = remove_liquidity(b, 333).unwrap();
    assert!(wb.token_a_amount as u128 * 700 >= 1000 * wb.total_lp_supply as u128);
    assert!(wb.token_b_amount as u128 * 700 >= 3000 * wb.total_lp_supply as u128);
}

#[test]
fn round_trip_returns_at_most_the_deposit() {
    let b = bal(1000, 3000, 700);
    let (nb, lp) = add_liquidity(b, 333, 777).unwrap();
    let (_, out_a, out_b) = remove_liquidity(nb, lp).unwrap();
    assert!(out_a <= 333 && out_b <= 777);
    let (nb, lp) = add_liquidity(bal(0, 0, 0), 50, 200).unwrap();
    assert_eq!(remove_liquidity(nb, lp), Ok((bal(0, 0, 0), 50, 200)));
}

#[test]
fn new_pool_starts_empty() {
    let pool = new_pool("Test Pool".to_string(), [1; 32], [2; 32], [3; 32], [4; 32], [5; 32], [6; 32]);
    assert_eq!(pool.name, "Test Pool");
    assert_eq!(pool.lp_mint, [2; 32]);
    assert_eq!(pool.token_b_vault, [6; 32]);
    assert_eq!(pool.balances(), bal(0, 0, 0));
    let mut pool = pool;
    pool.set_balances(bal(1, 2, 3));
    assert_eq!(pool.token_a_amount, 1);
    assert_eq!(pool.total_lp_supply, 3);
    assert_eq!(pool.mint_authority, [1; 32]);
}

#[test]
fn add_flow_with_every_call_succeeding() {
    let (mut flow, action) = AddLiquidityFlow::begin(bal(100, 400, 200), 10, 10);
    assert_eq!(action, Action::Call(TokenCall::DepositA(10)));
    assert_eq!(flow.advance(CallOutcome::Succeeded), Action::Call(TokenCall::DepositB(10)));
    assert_eq!(flow.advance(CallOutcome::Succeeded), Action::Call(TokenCall::MintLp(5)));
    assert_eq!(flow.advance(CallOutcome::Succeeded), Action::Commit(bal(110, 410, 205)));
    assert_eq!(flow.stage, AddStage::Finished);
}

#[test]
fn add_flow_rejects_and_aborts() {
    let (flow, action) = AddLiquidityFlow::begin(bal(0, 0, 0), 0, 10);
    assert_eq!(action, Action::Reject(ErrorCode::ZeroAmount));
    assert_eq!(flow.stage, AddStage::Finished);

    let (mut flow, _) = AddLiquidityFlow::begin(bal(1000, 1000, 10), 1, 1);
    flow.advance(CallOutcome::Succeeded);
    assert_eq!(
        flow.advance(CallOutcome::Succeeded),
        Action::Reject(ErrorCode::InsufficientLiquidityMinted)
    );

    let (mut flow, _) = AddLiquidityFlow::begin(bal(u64::MAX - 5, 10, 10), u64::MAX / 5, 10);
    flow.advance(CallOutcome::Succeeded);
    assert_eq!(flow.advance(CallOutcome::Succeeded), Action::Call(TokenCall::MintLp(2)));
    assert_eq!(flow.advance(CallOutcome::Succeeded), Action::Reject(ErrorCode::MathOverflow));

    let (mut flow, _) = AddLiquidityFlow::begin(bal(0, 0, 0), 4, 9);
    assert_eq!(flow.advance(CallOutcome::Succeeded), Action::Call(TokenCall::DepositB(9)));
    assert_eq!(flow.advance(CallOutcome::Failed), Action::Abort);
    assert_eq!(flow.stage, AddStage::Finished);
}

#[test]
fn remove_flow_with_every_call_succeeding() {
    let (mut flow, action) = RemoveLiquidityFlow::begin(bal(100, 400, 200), 50);
    assert_eq!(action, Action::Call(TokenCall::BurnLp(50)));
    assert_eq!(flow.advance(CallOutcome::Succeeded), Action::Call(TokenCall::WithdrawA(25)));
    assert_eq!(flow.advance(CallOutcome::Succeeded), Action::Call(TokenCall::WithdrawB(100)));
    assert_eq!(flow.advance(CallOutcome::Succeeded), Action::Commit(bal(75, 300, 150)));
    assert_eq!(flow.stage, RemoveStage::Finished);
}

#[test]
fn remove_flow_rejects_and_aborts() {
    let (flow, action) = RemoveLiquidityFlow::begin(bal(100, 400, 200), 0);
    assert_eq!(action, Action::Reject(ErrorCode::ZeroAmount));
    assert_eq!(flow.stage, RemoveStage::Finished);

    let (mut flow, _) = RemoveLiquidityFlow::begin(bal(100, 400, 200), 300);
    flow.advance(CallOutcome::Succeeded);
    flow.advance(CallOutcome::Succeeded);
    assert_eq!(flow.advance(CallOutcome::Succeeded), Action::Reject(ErrorCode::MathOverflow));

    let (mut flow, _) = RemoveLiquidityFlow::begin(bal(100, 400, 200), 50);
    assert_eq!(flow.advance(CallOutcome::Failed), Action::Abort);
    assert_eq!(flow.stage, RemoveStage::Finished);
}
