pub mod add_liquidity;
pub mod init_pool;
pub mod remove_liquidity;
