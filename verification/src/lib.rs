//! A transfer hook that limits how much each wallet moves.
//!
//! The token program calls the hook in the middle of every transfer of a mint.
//! Each sender may move at most [`rate_limit::LIMIT_PER_WINDOW`] tokens in a
//! window of [`rate_limit::WINDOW_SECONDS`]; a transfer over the limit is
//! refused as a whole. The state of each wallet stands in an account of its own,
//! at an address derived from the mint and the wallet.
//!
//! [`rate_limit`] holds the rule itself, [`program`] the instructions, and
//! [`laws`] and [`chain`] what holds of them taken together; [`behaviour`] says
//! in plain numbers and bytes what each of them comes to. The other modules hold
//! what the instructions are made of: account addresses, stored formats, and the
//! calls into the token program's crates.

pub mod accounts;
pub mod behaviour;
pub mod chain;
pub mod constants;
pub mod error;
pub mod extra_metas;
pub mod instruction;
pub mod laws;
pub mod le;
pub mod pda;
pub mod program;
pub mod rate_limit;
pub mod token_account;
