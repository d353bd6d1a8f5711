//! Errors of the hook program.

use vstd::prelude::*;

verus! {

/// Errors that the hook itself raises.
#[derive(Clone, Copy, Debug, PartialEq, Eq, Structural)]
pub enum TransferHookError {
    /// The hook was called outside a transfer.
    NotTransferring,
    /// The transfer would take the wallet over its limit.
    RateLimitExceeded,
    /// The new total does not fit in 64 bits.
    Overflow,
    /// Extra-account metadata could not be built or read.
    MetaResolution,
}

/// Number of the first program-specific error; lower numbers belong to the
/// framework.
pub const ERROR_CODE_OFFSET: u32 = 6000;

/// The text shown for each error.
pub open spec fn message_of(error: TransferHookError) -> Seq<char> {
    match error {
        TransferHookError::NotTransferring => "Hook can only be invoked from a real transfer"@,
        TransferHookError::RateLimitExceeded => "Transfer exceeds the rate limit for this window"@,
        TransferHookError::Overflow => "Arithmetic overflow"@,
        TransferHookError::MetaResolution => "Failed to resolve or read extra-account metadata"@,
    }
}

/// The position of each error in the declaration.
pub open spec fn position_of(error: TransferHookError) -> nat {
    match error {
        TransferHookError::NotTransferring => 0,
        TransferHookError::RateLimitExceeded => 1,
        TransferHookError::Overflow => 2,
        TransferHookError::MetaResolution => 3,
    }
}

impl TransferHookError {
    /// The error's number on the wire.
    pub fn code(&self) -> (code: u32)
        ensures
            code == ERROR_CODE_OFFSET + position_of(*self),
    {
        match self {
            TransferHookError::NotTransferring => ERROR_CODE_OFFSET,
            TransferHookError::RateLimitExceeded => ERROR_CODE_OFFSET + 1,
            TransferHookError::Overflow => ERROR_CODE_OFFSET + 2,
            TransferHookError::MetaResolution => ERROR_CODE_OFFSET + 3,
        }
    }

    /// The text shown for the error.
    pub fn message(&self) -> (text: &'static str)
        ensures
            text@ == message_of(*self),
    {
        match self {
            TransferHookError::NotTransferring => "Hook can only be invoked from a real transfer",
            TransferHookError::RateLimitExceeded =>
                "Transfer exceeds the rate limit for this window",
            TransferHookError::Overflow => "Arithmetic overflow",
            TransferHookError::MetaResolution =>
                "Failed to resolve or read extra-account metadata",
        }
    }
}

/// Every way in which an instruction of the program can fail.
#[derive(Clone, Copy, Debug, PartialEq, Eq, Structural)]
pub enum InstructionError {
    /// The hook refused.
    Hook(TransferHookError),
    /// The account passed as the system program is another.
    InvalidProgramId,
    /// The source account does not hold a token account.
    InvalidAccountData,
    /// The source account holds a token account that is not initialized.
    UninitializedAccount,
    /// An account is not the one that its seeds lead to.
    ConstraintSeeds,
    /// The instruction's arguments could not be read.
    InstructionDidNotDeserialize,
    /// The instruction is none that the program serves.
    InvalidInstructionData,
    /// The account to be created exists already.
    AccountAlreadyInUse,
}

/// Ways in which a stored account can fail to be a rate-limit account.
#[derive(Clone, Copy, Debug, PartialEq, Eq, Structural)]
pub enum AccountDataError {
    /// Nothing is stored at the address.
    AccountNotInitialized,
    /// The account belongs to another program.
    AccountOwnedByWrongProgram,
    /// Too short to hold a discriminator.
    AccountDiscriminatorNotFound,
    /// The discriminator is that of another account type.
    AccountDiscriminatorMismatch,
    /// Too short to hold the fields.
    AccountDidNotDeserialize,
}

} // verus!
