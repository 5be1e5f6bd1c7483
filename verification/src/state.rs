use vstd::prelude::*;

verus! {

/// The three counters of a pool that liquidity operations move.
#[derive(Debug, Clone, Copy, PartialEq, Eq, Structural)]
pub struct Balances {
    /// Amount of token A held in the pool's vault, as the pool records it.
    pub token_a_amount: u64,
    /// Amount of token B held in the pool's vault, as the pool records it.
    pub token_b_amount: u64,
    /// Number of LP tokens in circulation.
    pub total_lp_supply: u64,
}

impl Balances {
    /// An empty pool: no reserves and no LP tokens.
    pub open spec fn is_empty(self) -> bool {
        &&& self.token_a_amount == 0
        &&& self.token_b_amount == 0
        &&& self.total_lp_supply == 0
    }

    /// Either the pool holds nothing at all, or LP tokens are out and both reserves are
    /// non-zero.
    pub open spec fn is_consistent(self) -> bool {
        &&& self.total_lp_supply == 0 ==> self.token_a_amount == 0 && self.token_b_amount == 0
        &&& self.total_lp_supply > 0 ==> self.token_a_amount > 0 && self.token_b_amount > 0
    }

    /// Pricing a deposit against these balances divides by both reserves whenever
    /// LP tokens are out; this holds when those divisions are defined.
    pub open spec fn can_price_deposit(self) -> bool {
        self.total_lp_supply > 0 ==> self.token_a_amount > 0 && self.token_b_amount > 0
    }
}

/// A 32-byte account address.
pub type Address = [u8; 32];

/// The on-chain record of a liquidity pool.
pub struct Pool {
    pub name: String,
    pub mint_authority: Address,
    pub lp_mint: Address,
    pub token_a_mint: Address,
    pub token_b_mint: Address,
    pub token_a_vault: Address,
    pub token_b_vault: Address,
    pub token_a_amount: u64,
    pub token_b_amount: u64,
    pub total_lp_supply: u64,
}

impl Pool {
    /// The counters of this pool.
    pub open spec fn balances_of(self) -> Balances {
        Balances {
            token_a_amount: self.token_a_amount,
            token_b_amount: self.token_b_amount,
            total_lp_supply: self.total_lp_supply,
        }
    }

    /// Reads the three counters of this pool.
    pub fn balances(&self) -> (b: Balances)
        ensures
            b == self.balances_of(),
    {
        Balances {
            token_a_amount: self.token_a_amount,
            token_b_amount: self.token_b_amount,
            total_lp_supply: self.total_lp_supply,
        }
    }

    /// Overwrites the three counters of this pool and leaves its name and addresses alone.
    pub fn set_balances(&mut self, b: Balances)
        ensures
            final(self).balances_of() == b,
            final(self).name == old(self).name,
            final(self).mint_authority == old(self).mint_authority,
            final(self).lp_mint == old(self).lp_mint,
            final(self).token_a_mint == old(self).token_a_mint,
            final(self).token_b_mint == old(self).token_b_mint,
            final(self).token_a_vault == old(self).token_a_vault,
            final(self).token_b_vault == old(self).token_b_vault,
    {
        self.token_a_amount = b.token_a_amount;
        self.token_b_amount = b.token_b_amount;
        self.total_lp_supply = b.total_lp_supply;
    }
}

} // verus!
