//! The accounts that each instruction works on, and the seeds that bind them.

use vstd::prelude::*;

use crate::error::InstructionError;
use crate::pda::{
    derived_view, extra_account_metas_address, extra_account_metas_derived, rate_limit_address,
    rate_limit_derived, same_key, Pubkey, SYSTEM_PROGRAM_ID,
};
use crate::rate_limit::RateLimit;
use crate::token_account::{token_account_extensions, unpack_extensions, TokenAccount};

verus! {

/// A rate-limit account: its address and the state that it holds.
#[derive(Clone, Copy, Debug, PartialEq, Eq)]
pub struct RateLimitAccount {
    pub key: Pubkey,
    pub state: RateLimit,
}

/// Accounts of the instruction that writes a mint's list of extra accounts.
#[derive(Clone, Copy, Debug, PartialEq, Eq)]
pub struct InitializeExtraAccountMetaList {
    pub payer: Pubkey,
    pub extra_account_meta_list: Pubkey,
    pub mint: Pubkey,
    pub system_program: Pubkey,
}

/// Accounts of the instruction that registers a wallet.
#[derive(Clone, Copy, Debug, PartialEq, Eq)]
pub struct InitializeRateLimit {
    pub payer: Pubkey,
    pub mint: Pubkey,
    /// The wallet being registered; only its address counts.
    pub owner: Pubkey,
    pub rate_limit: RateLimitAccount,
    pub system_program: Pubkey,
}

/// Accounts of the hook itself, in the order of the interface: source, mint,
/// destination, owner, list of extra accounts, then the extra account.
#[derive(Debug)]
pub struct TransferHook {
    pub source_token: TokenAccount,
    pub mint: Pubkey,
    pub destination_token: Pubkey,
    pub owner: Pubkey,
    pub extra_account_meta_list: Pubkey,
    pub rate_limit: RateLimitAccount,
}

/// What a seeds constraint makes of an account at `key`, given what the
/// derivation found: the bump where the addresses agree, an error where they
/// do not, and `None` where nothing was found, on which the program aborts.
pub open spec fn seeds_verdict(key: Seq<u8>, derived: Option<(Seq<u8>, u8)>) -> Option<
    Result<u8, InstructionError>,
> {
    match derived {
        None => None,
        Some((address, bump)) => if key == address {
            Some(Ok(bump))
        } else {
            Some(Err(InstructionError::ConstraintSeeds))
        },
    }
}

/// Holds `key` against a derived address.
pub fn check_seeds(key: &Pubkey, derived: Option<(Pubkey, u8)>) -> (verdict: Option<
    Result<u8, InstructionError>,
>)
    ensures
        verdict == seeds_verdict(key@, derived_view(derived)),
{
    match derived {
        None => None,
        Some((address, bump)) => {
            if same_key(key, &address) {
                Some(Ok(bump))
            } else {
                Some(Err(InstructionError::ConstraintSeeds))
            }
        },
    }
}

impl InitializeExtraAccountMetaList {
    /// What becomes of these accounts when they are loaded: the system program
    /// is looked at first, then the seeds.
    pub open spec fn verdict(self, program_id: Seq<u8>) -> Option<Result<u8, InstructionError>> {
        if self.system_program@ != SYSTEM_PROGRAM_ID@ {
            Some(Err(InstructionError::InvalidProgramId))
        } else {
            seeds_verdict(
                self.extra_account_meta_list@,
                extra_account_metas_derived(self.mint@, program_id),
            )
        }
    }

    /// Checks the system program's address and that the list account is the one
    /// of the mint, and gives its bump.
    pub fn validate(&self, program_id: &Pubkey) -> (verdict: Option<Result<u8, InstructionError>>)
        ensures
            verdict == self.verdict(program_id@),
    {
        if !same_key(&self.system_program, &SYSTEM_PROGRAM_ID) {
            return Some(Err(InstructionError::InvalidProgramId));
        }
        check_seeds(
            &self.extra_account_meta_list,
            extra_account_metas_address(&self.mint, program_id),
        )
    }
}

impl InitializeRateLimit {
    /// What becomes of these accounts when they are loaded: the system program
    /// is looked at first, then the seeds.
    pub open spec fn verdict(self, program_id: Seq<u8>) -> Option<Result<u8, InstructionError>> {
        if self.system_program@ != SYSTEM_PROGRAM_ID@ {
            Some(Err(InstructionError::InvalidProgramId))
        } else {
            seeds_verdict(
                self.rate_limit.key@,
                rate_limit_derived(self.mint@, self.owner@, program_id),
            )
        }
    }

    /// Checks the system program's address and that the rate-limit account is
    /// the one of the wallet and the mint, and gives its bump.
    pub fn validate(&self, program_id: &Pubkey) -> (verdict: Option<Result<u8, InstructionError>>)
        ensures
            verdict == self.verdict(program_id@),
    {
        if !same_key(&self.system_program, &SYSTEM_PROGRAM_ID) {
            return Some(Err(InstructionError::InvalidProgramId));
        }
        check_seeds(
            &self.rate_limit.key,
            rate_limit_address(&self.mint, &self.owner, program_id),
        )
    }
}

impl TransferHook {
    /// What becomes of these accounts when they are loaded: the source account
    /// is read first, then the seeds of the list of extra accounts are looked
    /// at, then those of the rate-limit account.
    pub open spec fn verdict(self, program_id: Seq<u8>) -> Option<Result<u8, InstructionError>> {
        match token_account_extensions(self.source_token.data@) {
            Err(error) => Some(Err(error)),
            Ok(_) => match seeds_verdict(
                self.extra_account_meta_list@,
                extra_account_metas_derived(self.mint@, program_id),
            ) {
                Some(Ok(_)) => seeds_verdict(
                    self.rate_limit.key@,
                    rate_limit_derived(self.mint@, self.owner@, program_id),
                ),
                failed => failed,
            },
        }
    }

    /// Checks that the source is a token account, that the list account is the
    /// one of the mint and that the rate-limit account is the one of the sender
    /// and the mint; gives the bump of the latter.
    pub fn validate(&self, program_id: &Pubkey) -> (verdict: Option<Result<u8, InstructionError>>)
        ensures
            verdict == self.verdict(program_id@),
    {
        if let Err(error) = unpack_extensions(self.source_token.data.as_slice()) {
            return Some(Err(error));
        }
        let list = check_seeds(
            &self.extra_account_meta_list,
            extra_account_metas_address(&self.mint, program_id),
        );
        match list {
            Some(Ok(_)) => check_seeds(
                &self.rate_limit.key,
                rate_limit_address(&self.mint, &self.owner, program_id),
            ),
            failed => failed,
        }
    }
}

} // verus!
