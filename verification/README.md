# amm

A constant product AMM for Solana: two vaults hold the reserves, an LP mint
tracks who owns what share of them, and every swap pays a fee split between
the liquidity providers and a protocol treasury.

The library under `src/` is verified with Verus. It holds the pool's logic as
functions from plain values to plain values:

- `curve`: the curve math (`mul_div`, `integer_sqrt`, `compute_deposit`,
  `compute_withdraw`, `compute_swap`), each with a contract that fixes its
  result and every error, and the rounding rules: fees and required deposits
  round up, payouts round down.
- `curve_laws`: what holds across calls: a swap never lowers `x * y`, the
  LP supply stays backed by the reserves through deposits, withdrawals and
  swaps, a deposit never takes more than offered and pays at most one base
  unit over the ratio, and a deposit followed by a withdrawal never returns
  more than went in.
- `instructions`: one module per instruction. Each holds what the
  instruction reads from its accounts and a `handler` that returns a plan:
  the transfers, mints and burns to perform and the event to record, or the
  error the instruction fails with.
- `pool_laws`: what the instructions promise together, such as a stored
  config never breaking a swap and withdrawals ignoring the pool's lock.
- `state`, `events`, `error`, `constants`, `program`, `cluster`.

`app/` is the Anchor program around the library (accounts, token transfers,
events) and a client that runs one pool through its life on a cluster.

`tests/` runs the curve on concrete values, each handler on its own, and
whole pool lifecycles against an in-memory ledger of token accounts.
