//! Verified core of a two-token liquidity pool program.

mod arith;
pub mod error;
pub mod flow;
pub mod instructions;
pub mod properties;
pub mod state;

pub use error::ErrorCode;
pub use state::{Address, Balances, Pool};

use vstd::prelude::*;

verus! {

} // verus!
