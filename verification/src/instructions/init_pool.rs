use vstd::prelude::*;

use crate::state::{Address, Pool};

verus! {

/// The record of a freshly created pool: its name, the addresses of its mint authority,
/// LP mint, token mints and vaults, and no reserves and no LP tokens yet.
pub fn new_pool(
    pool_name: String,
    mint_authority: Address,
    lp_mint: Address,
    token_a_mint: Address,
    token_b_mint: Address,
    token_a_vault: Address,
    token_b_vault: Address,
) -> (pool: Pool)
    ensures
        pool.name == pool_name,
        pool.mint_authority == mint_authority,
        pool.lp_mint == lp_mint,
        pool.token_a_mint == token_a_mint,
        pool.token_b_mint == token_b_mint,
        pool.token_a_vault == token_a_vault,
        pool.token_b_vault == token_b_vault,
        pool.balances_of().is_empty(),
        pool.balances_of().is_consistent(),
{
    Pool {
        name: pool_name,
        mint_authority,
        lp_mint,
        token_a_mint,
        token_b_mint,
        token_a_vault,
        token_b_vault,
        token_a_amount: 0,
        token_b_amount: 0,
        total_lp_supply: 0,
    }
}

} // verus!
