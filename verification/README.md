# tidepool

A concentrated-liquidity AMM (Q64.64 prices, tick arrays, positions, multi-tick swaps),
an auto-rebalancing vault that manages one position of it on behalf of share holders,
and the decision logic of an off-chain keeper that watches the vault — with the state
transitions and the arithmetic proved correct by Verus.

Layout:

- `src/clmm/` — the AMM. `math/` holds the fixed-point arithmetic (256-bit products and
  divisions, tick ↔ price conversion, token amounts for a liquidity and a price range,
  swap steps, fees); `state/` the pool, position and tick-array accounts; `instructions/`
  one state transition per instruction, each with the account checks it makes.
- `src/vault/` — share accounting (`state/vault.rs`) and the vault's instructions; the
  functions in `src/vault.rs` are its entry points (account checks, then the transition).
  Rebalancing removes the position's liquidity, collects its fees and adds what they fund
  to a position over the new range; compounding collects the fees and reinvests what the
  performance fee leaves. Both run the AMM's own instructions on the pool accounts they
  are given.
- `src/keeper/` — reading vault and pool accounts, and deciding when and where to move the
  vault's range.
- `app/` — the keeper binary: command line, RPC, logging, the polling loops, and the
  floating-point metrics.
- `tests/` — tests against the library.

Token transfers, account creation and the program runtime are not modelled: each
instruction returns what it decided (new state and event), and the caller moves tokens.
