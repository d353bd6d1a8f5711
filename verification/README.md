# transfer_hook

A token transfer hook that limits how much each wallet moves: at most 500,000
base units in a window of 24 hours. The token program calls the hook in the
middle of every transfer; where the hook refuses, the whole transfer is undone.

- `src/` is the verified library: the rate limit and its stored form, the
  instructions of the program and the list of extra accounts. `laws.rs` and
  `chain.rs` state and prove what holds of all of it together: the first of the
  rule and the formats, the second of every account on a chain.
- `tests/` runs the library with the real token program crates.
- `app/` is the on-chain program around the library.

Each wallet has a window of its own, kept at the address derived from
`"rate-limit"`, the mint and the wallet. A wallet is registered once before its
first send. Windows are fixed, not sliding: around the end of a window a wallet
can move up to twice the limit within less than 24 hours
(`law_any_period_is_capped`).
