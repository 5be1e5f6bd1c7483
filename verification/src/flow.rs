//! The liquidity instructions as step machines. Each instruction interleaves calls into the
//! token program with its own decisions; a step machine makes the decisions and names the
//! next call, and its driver makes that call and reports back whether it succeeded.

use vstd::prelude::*;

use crate::error::ErrorCode;
use crate::instructions::add_liquidity::{
    apply_deposit, check_deposit_amounts, deposit_update, lp_minted_for, lp_to_mint,
};
use crate::instructions::remove_liquidity::{
    apply_withdrawal, quote_withdrawal, withdrawal_quote, withdrawal_update,
};
use crate::state::Balances;

verus! {

/// A call into the token program that an instruction asks its driver to make.
#[derive(Debug, Clone, Copy, PartialEq, Eq, Structural)]
pub enum TokenCall {
    /// Move this much token A from the provider's account into the pool's vault.
    DepositA(u64),
    /// Move this much token B from the provider's account into the pool's vault.
    DepositB(u64),
    /// Mint this many LP tokens to the provider, signed by the mint authority.
    MintLp(u64),
    /// Burn this many LP tokens from the provider's account.
    BurnLp(u64),
    /// Move this much token A from the pool's vault to the provider, signed by the mint authority.
    WithdrawA(u64),
    /// Move this much token B from the pool's vault to the provider, signed by the mint authority.
    WithdrawB(u64),
}

/// How the last requested token call ended.
#[derive(Debug, Clone, Copy, PartialEq, Eq, Structural)]
pub enum CallOutcome {
    Succeeded,
    Failed,
}

/// What the driver of an instruction does next.
#[derive(Debug, Clone, Copy, PartialEq, Eq, Structural)]
pub enum Action {
    /// Make this token call and report how it ended.
    Call(TokenCall),
    /// Write these counters into the pool and end the instruction successfully.
    Commit(Balances),
    /// End the instruction with this error; nothing is written.
    Reject(ErrorCode),
    /// End the instruction with the error of the token call that failed; nothing is written.
    Abort,
}

/// Where an add-liquidity instruction stands.
#[derive(Debug, Clone, Copy, PartialEq, Eq, Structural)]
pub enum AddStage {
    AwaitingDepositA,
    AwaitingDepositB,
    /// Waiting for the mint of this many LP tokens.
    AwaitingMint(u64),
    Finished,
}

/// An add-liquidity instruction in progress.
#[derive(Debug, Clone, Copy, PartialEq, Eq, Structural)]
pub struct AddLiquidityFlow {
    /// The pool's counters when the instruction started.
    pub balances: Balances,
    pub amount_a: u64,
    pub amount_b: u64,
    pub stage: AddStage,
}

/// The first decision of an add-liquidity instruction.
pub open spec fn add_begin(b: Balances, amount_a: u64, amount_b: u64) -> (
    AddLiquidityFlow,
    Action,
) {
    let f = AddLiquidityFlow {
        balances: b,
        amount_a,
        amount_b,
        stage: AddStage::Finished,
    };
    if amount_a == 0 || amount_b == 0 {
        (f, Action::Reject(ErrorCode::ZeroAmount))
    } else {
        (
            AddLiquidityFlow { stage: AddStage::AwaitingDepositA, ..f },
            Action::Call(TokenCall::DepositA(amount_a)),
        )
    }
}

/// The decision an add-liquidity instruction takes once its pending token call has ended.
pub open spec fn add_step(f: AddLiquidityFlow, outcome: CallOutcome) -> (AddLiquidityFlow, Action) {
    let done = AddLiquidityFlow { stage: AddStage::Finished, ..f };
    if outcome == CallOutcome::Failed {
        (done, Action::Abort)
    } else {
        match f.stage {
            AddStage::AwaitingDepositA => (
                AddLiquidityFlow { stage: AddStage::AwaitingDepositB, ..f },
                Action::Call(TokenCall::DepositB(f.amount_b)),
            ),
            AddStage::AwaitingDepositB => {
                let lp = lp_minted_for(f.balances, f.amount_a, f.amount_b);
                if lp == 0 {
                    (done, Action::Reject(ErrorCode::InsufficientLiquidityMinted))
                } else {
                    (
                        AddLiquidityFlow { stage: AddStage::AwaitingMint(lp), ..f },
                        Action::Call(TokenCall::MintLp(lp)),
                    )
                }
            },
            AddStage::AwaitingMint(lp) => match deposit_update(
                f.balances,
                f.amount_a,
                f.amount_b,
                lp,
            ) {
                Ok(nb) => (done, Action::Commit(nb)),
                Err(e) => (done, Action::Reject(e)),
            },
            AddStage::Finished => (done, Action::Abort),
        }
    }
}

impl AddLiquidityFlow {
    /// Starts adding `amount_a` of token A and `amount_b` of token B to a pool with counters `b`.
    pub fn begin(b: Balances, amount_a: u64, amount_b: u64) -> (r: (AddLiquidityFlow, Action))
        ensures
            r == add_begin(b, amount_a, amount_b),
    {
        let f = AddLiquidityFlow { balances: b, amount_a, amount_b, stage: AddStage::Finished };
        match check_deposit_amounts(amount_a, amount_b) {
            Err(e) => (f, Action::Reject(e)),
            Ok(()) => (
                AddLiquidityFlow { stage: AddStage::AwaitingDepositA, ..f },
                Action::Call(TokenCall::DepositA(amount_a)),
            ),
        }
    }

    /// Takes the next decision once the pending token call has ended with `outcome`.
    pub fn advance(&mut self, outcome: CallOutcome) -> (action: Action)
        requires
            old(self).stage != AddStage::Finished,
            old(self).stage == AddStage::AwaitingDepositB && outcome == CallOutcome::Succeeded
                ==> old(self).balances.can_price_deposit(),
        ensures
            (*final(self), action) == add_step(*old(self), outcome),
    {
        if outcome == CallOutcome::Failed {
            self.stage = AddStage::Finished;
            return Action::Abort;
        }
        match self.stage {
            AddStage::AwaitingDepositA => {
                self.stage = AddStage::AwaitingDepositB;
                Action::Call(TokenCall::DepositB(self.amount_b))
            },
            AddStage::AwaitingDepositB => {
                let lp = lp_to_mint(self.balances, self.amount_a, self.amount_b);
                if lp == 0 {
                    self.stage = AddStage::Finished;
                    Action::Reject(ErrorCode::InsufficientLiquidityMinted)
                } else {
                    self.stage = AddStage::AwaitingMint(lp);
                    Action::Call(TokenCall::MintLp(lp))
                }
            },
            AddStage::AwaitingMint(lp) => {
                self.stage = AddStage::Finished;
                match apply_deposit(self.balances, self.amount_a, self.amount_b, lp) {
                    Ok(nb) => Action::Commit(nb),
                    Err(e) => Action::Reject(e),
                }
            },
            AddStage::Finished => Action::Abort,
        }
    }
}

/// Where a remove-liquidity instruction stands; each stage carries the two payouts.
#[derive(Debug, Clone, Copy, PartialEq, Eq, Structural)]
pub enum RemoveStage {
    AwaitingBurn(u64, u64),
    AwaitingWithdrawA(u64, u64),
    AwaitingWithdrawB(u64, u64),
    Finished,
}

/// A remove-liquidity instruction in progress.
#[derive(Debug, Clone, Copy, PartialEq, Eq, Structural)]
pub struct RemoveLiquidityFlow {
    /// The pool's counters when the instruction started.
    pub balances: Balances,
    pub lp_amount: u64,
    pub stage: RemoveStage,
}

/// The first decision of a remove-liquidity instruction.
pub open spec fn remove_begin(b: Balances, lp_amount: u64) -> (RemoveLiquidityFlow, Action) {
    let f = RemoveLiquidityFlow { balances: b, lp_amount, stage: RemoveStage::Finished };
    match withdrawal_quote(b, lp_amount) {
        Err(e) => (f, Action::Reject(e)),
        Ok((out_a, out_b)) => (
            RemoveLiquidityFlow { stage: RemoveStage::AwaitingBurn(out_a, out_b), ..f },
            Action::Call(TokenCall::BurnLp(lp_amount)),
        ),
    }
}

/// The decision a remove-liquidity instruction takes once its pending token call has ended.
pub open spec fn remove_step(f: RemoveLiquidityFlow, outcome: CallOutcome) -> (
    RemoveLiquidityFlow,
    Action,
) {
    let done = RemoveLiquidityFlow { stage: RemoveStage::Finished, ..f };
    if outcome == CallOutcome::Failed {
        (done, Action::Abort)
    } else {
        match f.stage {
            RemoveStage::AwaitingBurn(out_a, out_b) => (
                RemoveLiquidityFlow { stage: RemoveStage::AwaitingWithdrawA(out_a, out_b), ..f },
                Action::Call(TokenCall::WithdrawA(out_a)),
            ),
            RemoveStage::AwaitingWithdrawA(out_a, out_b) => (
                RemoveLiquidityFlow { stage: RemoveStage::AwaitingWithdrawB(out_a, out_b), ..f },
                Action::Call(TokenCall::WithdrawB(out_b)),
            ),
            RemoveStage::AwaitingWithdrawB(out_a, out_b) => match withdrawal_update(
                f.balances,
                f.lp_amount,
                out_a,
                out_b,
            ) {
                Ok(nb) => (done, Action::Commit(nb)),
                Err(e) => (done, Action::Reject(e)),
            },
            RemoveStage::Finished => (done, Action::Abort),
        }
    }
}

impl RemoveLiquidityFlow {
    /// Starts burning `lp_amount` LP tokens against a pool with counters `b`.
    pub fn begin(b: Balances, lp_amount: u64) -> (r: (RemoveLiquidityFlow, Action))
        ensures
            r == remove_begin(b, lp_amount),
    {
        let f = RemoveLiquidityFlow { balances: b, lp_amount, stage: RemoveStage::Finished };
        match quote_withdrawal(b, lp_amount) {
            Err(e) => (f, Action::Reject(e)),
            Ok((out_a, out_b)) => (
                RemoveLiquidityFlow { stage: RemoveStage::AwaitingBurn(out_a, out_b), ..f },
                Action::Call(TokenCall::BurnLp(lp_amount)),
            ),
        }
    }

    /// Takes the next decision once the pending token call has ended with `outcome`.
    pub fn advance(&mut self, outcome: CallOutcome) -> (action: Action)
        requires
            old(self).stage != RemoveStage::Finished,
        ensures
            (*final(self), action) == remove_step(*old(self), outcome),
    {
        if outcome == CallOutcome::Failed {
            self.stage = RemoveStage::Finished;
            return Action::Abort;
        }
        match self.stage {
            RemoveStage::AwaitingBurn(out_a, out_b) => {
                self.stage = RemoveStage::AwaitingWithdrawA(out_a, out_b);
                Action::Call(TokenCall::WithdrawA(out_a))
            },
            RemoveStage::AwaitingWithdrawA(out_a, out_b) => {
                self.stage = RemoveStage::AwaitingWithdrawB(out_a, out_b);
                Action::Call(TokenCall::WithdrawB(out_b))
            },
            RemoveStage::AwaitingWithdrawB(out_a, out_b) => {
                self.stage = RemoveStage::Finished;
                match apply_withdrawal(self.balances, self.lp_amount, out_a, out_b) {
                    Ok(nb) => Action::Commit(nb),
                    Err(e) => Action::Reject(e),
                }
            },
            RemoveStage::Finished => Action::Abort,
        }
    }
}

} // verus!
