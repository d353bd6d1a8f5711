//! The instructions of the hook program.
//!
//! Each handler runs on accounts that have been validated. The `process_`
//! functions do both, with the checks that the accounts' addresses and the
//! source account's data allow, and have no precondition: where the program
//! aborts, they give `None`.

use vstd::prelude::*;
use vstd::slice::{slice_subrange, slice_to_vec};

use crate::accounts::{
    InitializeExtraAccountMetaList, InitializeRateLimit, RateLimitAccount, TransferHook,
};
use crate::error::{InstructionError, TransferHookError};
use crate::extra_metas::{
    hook_metas, hook_seeds, is_seeds_meta, list_size, list_written, write_list, zeros,
    ExtraAccountMeta, LIST_HEADER_LEN, META_LEN,
};
use crate::instruction::{
    claims_too_many_entries, create_account, creates_account, overclaims, route, routed,
    Instruction,
};
use crate::le::{le_value, u64_from_le};
use crate::pda::{
    extra_account_metas_address, extra_account_metas_derived, program_address, Pubkey,
    EXTRA_ACCOUNT_METAS_SEED, RATE_LIMIT_SEED, SYSTEM_PROGRAM_ID,
};
use crate::rate_limit::{age_fits, charged, RateLimit};
use crate::token_account::{check_is_transferring, hook_flag, transferring_verdict};

verus! {

/// What is left to do to give a mint its list of extra accounts: fund and
/// create the account with [`MetaListPlan::create_account`], signed with
/// [`MetaListPlan::signer_seeds`], then fill it with [`MetaListPlan::write`].
#[derive(Debug)]
pub struct MetaListPlan {
    /// Who pays for the account.
    pub payer: Pubkey,
    /// The account to create.
    pub extra_account_meta_list: Pubkey,
    /// The mint that the list belongs to.
    pub mint: Pubkey,
    /// The bump of the account's address.
    pub bump: u8,
    /// Size of the account in bytes.
    pub account_size: u64,
    /// The entries of the list.
    pub account_metas: Vec<ExtraAccountMeta>,
    /// The program that will own the account.
    pub program_id: Pubkey,
}

/// The seeds with which the program signs for the list account of `mint`.
pub open spec fn list_signer_seeds(mint: Seq<u8>, bump: u8) -> Seq<Seq<u8>> {
    seq![EXTRA_ACCOUNT_METAS_SEED@, mint, seq![bump]]
}

impl MetaListPlan {
    /// The list holds the sender's rate-limit account, writable and not
    /// signing, and the account is made to its measure.
    pub open spec fn wf(self) -> bool {
        &&& self.account_metas@.len() == 1
        &&& is_seeds_meta(self.account_metas@[0], hook_seeds(), false, true)
        &&& self.account_size == LIST_HEADER_LEN + META_LEN
    }

    /// The seeds with which the program signs for the new account.
    pub fn signer_seeds(&self) -> (seeds: Vec<Vec<u8>>)
        ensures
            seeds@.map_values(|seed: Vec<u8>| seed@) == list_signer_seeds(self.mint@, self.bump),
    {
        let mut bump: Vec<u8> = Vec::new();
        bump.push(self.bump);
        let mut seeds: Vec<Vec<u8>> = Vec::new();
        seeds.push(slice_to_vec(EXTRA_ACCOUNT_METAS_SEED.as_slice()));
        seeds.push(slice_to_vec(self.mint.as_slice()));
        seeds.push(bump);
        proof {
            assert(bump@ =~= seq![self.bump]);
            assert(seeds@.map_values(|seed: Vec<u8>| seed@) =~= list_signer_seeds(
                self.mint@,
                self.bump,
            ));
        }
        seeds
    }

    /// The instruction that creates the account, endowed with `lamports`.
    pub fn create_account(&self, lamports: u64) -> (instruction: Instruction)
        ensures
            creates_account(
                instruction,
                self.payer@,
                self.extra_account_meta_list@,
                lamports,
                self.account_size,
                self.program_id@,
            ),
    {
        create_account(
            &self.payer,
            &self.extra_account_meta_list,
            lamports,
            self.account_size,
            &self.program_id,
        )
    }

    /// Writes the list into the data of the new account.
    pub fn write(&self, data: &mut [u8]) -> (outcome: Result<(), TransferHookError>)
        requires
            old(data)@ == zeros(old(data)@.len()),
            META_LEN * self.account_metas@.len() + 4 <= u32::MAX,
        ensures
            list_written(old(data)@, self.account_metas@, final(data)@, outcome is Ok),
            outcome matches Err(error) ==> error == TransferHookError::MetaResolution,
    {
        write_list(data, self.account_metas.as_slice())
    }
}

/// Whether `plan` is what `accounts` call for, given the bump of the list's
/// address.
pub open spec fn is_plan_for(
    plan: MetaListPlan,
    accounts: InitializeExtraAccountMetaList,
    program_id: Seq<u8>,
    bump: u8,
) -> bool {
    &&& plan.wf()
    &&& plan.payer == accounts.payer
    &&& plan.extra_account_meta_list == accounts.extra_account_meta_list
    &&& plan.mint == accounts.mint
    &&& plan.bump == bump
    &&& plan.program_id@ == program_id
}

/// Lays out the list account of a mint, given the bump of its address.
pub fn plan_with_bump(
    accounts: &InitializeExtraAccountMetaList,
    program_id: &Pubkey,
    bump: u8,
) -> (outcome: Result<MetaListPlan, TransferHookError>)
    ensures
        outcome matches Ok(plan) && is_plan_for(plan, *accounts, program_id@, bump),
{
    let account_metas = match hook_metas() {
        Ok(metas) => metas,
        Err(error) => {
            return Err(error);
        },
    };
    let account_size: u64 = match list_size(account_metas.len()) {
        Ok(size) => size,
        Err(error) => {
            return Err(error);
        },
    };
    Ok(
        MetaListPlan {
            payer: accounts.payer,
            extra_account_meta_list: accounts.extra_account_meta_list,
            mint: accounts.mint,
            bump,
            account_size,
            account_metas,
            program_id: *program_id,
        },
    )
}

/// Called once after the mint has been created: declares the one extra account
/// that the hook needs on every transfer, the sender's rate-limit account.
pub fn initialize_extra_account_meta_list(
    accounts: &InitializeExtraAccountMetaList,
    program_id: &Pubkey,
) -> (outcome: Result<MetaListPlan, TransferHookError>)
    requires
        extra_account_metas_derived(accounts.mint@, program_id@) is Some,
    ensures
        outcome matches Ok(plan) && is_plan_for(
            plan,
            *accounts,
            program_id@,
            extra_account_metas_derived(accounts.mint@, program_id@)->Some_0.1,
        ),
{
    match extra_account_metas_address(&accounts.mint, program_id) {
        Some((_, bump)) => plan_with_bump(accounts, program_id, bump),
        None => Err(TransferHookError::MetaResolution),
    }
}

/// What giving a mint its list comes to: the bump of the list's address, an
/// error, or `None` where the program aborts. The account is created on the
/// way, which fails where it is `in_use`: a list is made once.
pub open spec fn list_verdict(
    program_id: Seq<u8>,
    accounts: InitializeExtraAccountMetaList,
    in_use: bool,
) -> Option<Result<u8, InstructionError>> {
    match accounts.verdict(program_id) {
        Some(Ok(bump)) => if in_use {
            Some(Err(InstructionError::AccountAlreadyInUse))
        } else {
            Some(Ok(bump))
        },
        failed => failed,
    }
}

/// Validates the accounts and lays out the list account. `in_use` tells whether
/// the list account exists already, that is, holds lamports or data or belongs
/// to a program other than the system's.
pub fn process_initialize_extra_account_meta_list(
    program_id: &Pubkey,
    accounts: &InitializeExtraAccountMetaList,
    in_use: bool,
) -> (outcome: Option<Result<MetaListPlan, InstructionError>>)
    ensures
        match list_verdict(program_id@, *accounts, in_use) {
            None => outcome is None,
            Some(Err(error)) => outcome matches Some(Err(got)) && got == error,
            Some(Ok(bump)) => outcome matches Some(Ok(plan)) && is_plan_for(
                plan,
                *accounts,
                program_id@,
                bump,
            ),
        },
        outcome matches Some(Ok(plan)) ==> program_address(
            seq![EXTRA_ACCOUNT_METAS_SEED@, plan.mint@],
            program_id@,
        ) == Some((plan.extra_account_meta_list@, plan.bump)),
{
    match accounts.validate(program_id) {
        None => None,
        Some(Err(error)) => Some(Err(error)),
        Some(Ok(_)) => {
            if in_use {
                return Some(Err(InstructionError::AccountAlreadyInUse));
            }
            match initialize_extra_account_meta_list(accounts, program_id) {
                Ok(plan) => Some(Ok(plan)),
                Err(error) => Some(Err(InstructionError::Hook(error))),
            }
        },
    }
}

/// Registers a wallet: opens its first window, with nothing moved. Anyone can
/// register any wallet.
pub fn initialize_rate_limit(accounts: &mut InitializeRateLimit, now: i64)
    ensures
        *final(accounts) == (InitializeRateLimit {
            rate_limit: RateLimitAccount {
                state: RateLimit { window_start: now, window_total: 0 },
                ..old(accounts).rate_limit
            },
            ..*old(accounts)
        }),
        final(accounts).rate_limit.state.wf(),
{
    accounts.rate_limit.state = RateLimit::opened_at(now);
}

/// What registering a wallet at `now` comes to: its first window, an error, or
/// `None` where the program aborts. The account is created on the way, which
/// fails where it is `in_use`: a wallet is registered once.
pub open spec fn registered(
    program_id: Seq<u8>,
    accounts: InitializeRateLimit,
    in_use: bool,
    now: i64,
) -> Option<Result<RateLimit, InstructionError>> {
    match accounts.verdict(program_id) {
        None => None,
        Some(Err(error)) => Some(Err(error)),
        Some(Ok(_)) => if in_use {
            Some(Err(InstructionError::AccountAlreadyInUse))
        } else {
            Some(Ok(RateLimit { window_start: now, window_total: 0 }))
        },
    }
}

/// Validates the accounts and registers the wallet. `in_use` tells whether the
/// rate-limit account exists already, that is, holds data or belongs to a
/// program other than the system's.
pub fn process_initialize_rate_limit(
    program_id: &Pubkey,
    accounts: &mut InitializeRateLimit,
    in_use: bool,
    now: i64,
) -> (outcome: Option<Result<(), InstructionError>>)
    ensures
        match registered(program_id@, *old(accounts), in_use, now) {
            None => outcome is None && *final(accounts) == *old(accounts),
            Some(Err(error)) => outcome == Some(Err::<(), InstructionError>(error))
                && *final(accounts) == *old(accounts),
            Some(Ok(state)) => outcome == Some(Ok::<(), InstructionError>(())) && *final(accounts)
                == (InitializeRateLimit {
                rate_limit: RateLimitAccount { state, ..old(accounts).rate_limit },
                ..*old(accounts)
            }),
        },
        ({
            &&& !in_use
            &&& old(accounts).system_program@ == SYSTEM_PROGRAM_ID@
            &&& program_address(
                seq![RATE_LIMIT_SEED@, old(accounts).mint@, old(accounts).owner@],
                program_id@,
            ) matches Some((address, _)) && address == old(accounts).rate_limit.key@
        }) ==> outcome == Some(Ok::<(), InstructionError>(()))
            && final(accounts).rate_limit.state.window_start == now
            && final(accounts).rate_limit.state.window_total == 0,
{
    match accounts.validate(program_id) {
        None => None,
        Some(Err(error)) => Some(Err(error)),
        Some(Ok(_)) => {
            if in_use {
                return Some(Err(InstructionError::AccountAlreadyInUse));
            }
            initialize_rate_limit(accounts, now);
            Some(Ok(()))
        },
    }
}

/// The state of the sender's window after a transfer of `amount` at `now`, or
/// why the hook refuses it.
pub open spec fn hook_outcome(accounts: TransferHook, now: i64, amount: u64) -> Result<
    RateLimit,
    TransferHookError,
> {
    match transferring_verdict(hook_flag(accounts.source_token.data@)) {
        Err(error) => Err(error),
        Ok(()) => charged(accounts.rate_limit.state, now, amount),
    }
}

/// `accounts` with another state in the rate-limit account.
pub open spec fn with_state(accounts: TransferHook, state: RateLimit) -> TransferHook {
    TransferHook {
        rate_limit: RateLimitAccount { state, ..accounts.rate_limit },
        ..accounts
    }
}

/// The hook: called on every transfer of the mint. It runs inside a genuine
/// transfer only, and charges the amount to the sender's window. A refused
/// transfer leaves every account as it was.
pub fn transfer_hook(accounts: &mut TransferHook, now: i64, amount: u64) -> (outcome: Result<
    (),
    TransferHookError,
>)
    requires
        transferring_verdict(hook_flag(old(accounts).source_token.data@)) is Ok ==> age_fits(
            old(accounts).rate_limit.state,
            now,
        ),
    ensures
        match hook_outcome(*old(accounts), now, amount) {
            Ok(state) => outcome == Ok::<(), TransferHookError>(()) && *final(accounts)
                == with_state(*old(accounts), state),
            Err(error) => outcome == Err::<(), TransferHookError>(error) && *final(accounts)
                == *old(accounts),
        },
        old(accounts).rate_limit.state.wf() ==> final(accounts).rate_limit.state.wf(),
{
    match check_is_transferring(&accounts.source_token) {
        Err(error) => Err(error),
        Ok(()) => {
            let mut state: RateLimit = accounts.rate_limit.state;
            match state.charge(now, amount) {
                Err(error) => Err(error),
                Ok(()) => {
                    accounts.rate_limit.state = state;
                    Ok(())
                },
            }
        },
    }
}

/// What an instruction that runs the hook comes to: the sender's new window, an
/// error, or `None` where the program aborts. The arguments are read first,
/// then the accounts are validated, then the hook runs.
pub open spec fn processed(
    program_id: Seq<u8>,
    accounts: TransferHook,
    arguments: Seq<u8>,
    now: i64,
) -> Option<Result<RateLimit, InstructionError>> {
    if arguments.len() < 8 {
        Some(Err(InstructionError::InstructionDidNotDeserialize))
    } else {
        match accounts.verdict(program_id) {
            None => None,
            Some(Err(error)) => Some(Err(error)),
            Some(Ok(_)) => match transferring_verdict(hook_flag(accounts.source_token.data@)) {
                Err(error) => Some(Err(InstructionError::Hook(error))),
                Ok(()) => if !age_fits(accounts.rate_limit.state, now) {
                    None
                } else {
                    match charged(
                        accounts.rate_limit.state,
                        now,
                        le_value(arguments.take(8)) as u64,
                    ) {
                        Ok(state) => Some(Ok(state)),
                        Err(error) => Some(Err(InstructionError::Hook(error))),
                    }
                },
            },
        }
    }
}

/// Whether `outcome` and `after` report `result` on `before`.
pub open spec fn reports(
    result: Option<Result<RateLimit, InstructionError>>,
    before: TransferHook,
    after: TransferHook,
    outcome: Option<Result<(), InstructionError>>,
) -> bool {
    match result {
        None => outcome is None && after == before,
        Some(Err(error)) => outcome == Some(Err::<(), InstructionError>(error)) && after == before,
        Some(Ok(state)) => outcome == Some(Ok::<(), InstructionError>(())) && after == with_state(
            before,
            state,
        ),
    }
}

/// Reads the amount from the first eight bytes of `arguments`, validates the
/// accounts and runs the hook.
pub fn process_transfer_hook(
    program_id: &Pubkey,
    accounts: &mut TransferHook,
    arguments: &[u8],
    now: i64,
) -> (outcome: Option<Result<(), InstructionError>>)
    ensures
        reports(
            processed(program_id@, *old(accounts), arguments@, now),
            *old(accounts),
            *final(accounts),
            outcome,
        ),
{
    if arguments.len() < 8 {
        return Some(Err(InstructionError::InstructionDidNotDeserialize));
    }
    let first = slice_subrange(arguments, 0, 8);
    let amount: u64 = u64_from_le(first);
    assert(first@ =~= arguments@.take(8));
    match accounts.validate(program_id) {
        None => None,
        Some(Err(error)) => Some(Err(error)),
        Some(Ok(_)) => {
            if check_is_transferring(&accounts.source_token).is_ok() && now.checked_sub(
                accounts.rate_limit.state.window_start,
            ).is_none() {
                return None;
            }
            match transfer_hook(accounts, now, amount) {
                Ok(()) => Some(Ok(())),
                Err(error) => Some(Err(InstructionError::Hook(error))),
            }
        },
    }
}

/// What a raw interface instruction comes to.
pub open spec fn fallen_back(
    program_id: Seq<u8>,
    accounts: TransferHook,
    data: Seq<u8>,
    now: i64,
) -> Option<Result<RateLimit, InstructionError>> {
    if overclaims(data) {
        None
    } else {
        match routed(data) {
            Err(error) => Some(Err(error)),
            Ok(arguments) => processed(program_id, accounts, arguments, now),
        }
    }
}

/// Catches a raw interface instruction and routes an `Execute` to the hook.
/// Gives `None` where the program aborts.
pub fn fallback(
    program_id: &Pubkey,
    accounts: &mut TransferHook,
    data: &[u8],
    now: i64,
) -> (outcome: Option<Result<(), InstructionError>>)
    ensures
        reports(
            fallen_back(program_id@, *old(accounts), data@, now),
            *old(accounts),
            *final(accounts),
            outcome,
        ),
{
    if claims_too_many_entries(data) {
        return None;
    }
    match route(data) {
        Err(error) => Some(Err(error)),
        Ok(arguments) => process_transfer_hook(program_id, accounts, arguments.as_slice(), now),
    }
}

} // verus!
