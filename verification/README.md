# anchor_v2_example

A two-token liquidity pool for Solana, split in two:

- `src/` is the pool logic, verified with Verus: the pool record, how a deposit is
  priced (integer square root for the first deposit, the smaller proportional share
  afterwards), how a withdrawal is paid out, the errors each instruction reports, and
  the add/remove-liquidity instructions as step machines that name each token-program
  call and decide what follows it. `src/properties.rs` holds the proved properties of
  the pool as a whole (consistency of the counters, no dilution of LP shares, what a
  first deposit and a full withdrawal do, no profit from a deposit/withdraw round trip,
  and how the step machines follow the pure outcomes).
- `app/` is the Anchor program around it: account validation, the token-program calls
  the step machines ask for, writing the pool account and logging.
