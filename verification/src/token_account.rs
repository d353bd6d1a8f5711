//! Whether a token account is in the middle of a transfer.

use vstd::prelude::*;

use crate::error::{InstructionError, TransferHookError};
use crate::pda::Pubkey;

verus! {

/// A token account as the hook sees it: its address and its raw data.
#[derive(Debug)]
pub struct TokenAccount {
    pub key: Pubkey,
    pub data: Vec<u8>,
}

/// Bytes of a token account without extensions.
pub const BASE_ACCOUNT_LEN: usize = 165;

/// Where the extensions of a token account start; a byte that tells the kind
/// of account stands before them.
pub const EXTENSIONS_START: usize = 166;

/// Bytes of a multisignature account; data of this length holds no token
/// account.
pub const MULTISIG_LEN: usize = 355;

/// Type of the transfer-hook extension of a token account.
pub const HOOK_EXTENSION: u16 = 15;

/// Whether the four bytes of `data` at `start` say that an optional field is
/// absent or present.
pub open spec fn is_option_tag(data: Seq<u8>, start: int) -> bool {
    let tag = data.subrange(start, start + 4);
    tag == seq![0u8, 0, 0, 0] || tag == seq![1u8, 0, 0, 0]
}

/// Whether the fixed part of `data` can be read: it is there, the three
/// optional fields (delegate, native reserve, close authority) are tagged, and
/// the state is uninitialized, initialized or frozen.
pub open spec fn fixed_part_reads(data: Seq<u8>) -> bool {
    &&& data.len() >= BASE_ACCOUNT_LEN
    &&& data.len() != MULTISIG_LEN
    &&& is_option_tag(data, 72)
    &&& data[108] <= 2
    &&& is_option_tag(data, 109)
    &&& is_option_tag(data, 129)
}

/// The extension bytes of the token account that `data` holds, or why it holds
/// none. What follows the fixed part is a byte that tells a token account, and
/// at least one byte of extensions.
pub open spec fn token_account_extensions(data: Seq<u8>) -> Result<Seq<u8>, InstructionError> {
    if !fixed_part_reads(data) {
        Err(InstructionError::InvalidAccountData)
    } else if data[108] == 0 {
        Err(InstructionError::UninitializedAccount)
    } else if data.len() == BASE_ACCOUNT_LEN {
        Ok(Seq::empty())
    } else if data.len() > EXTENSIONS_START && data[BASE_ACCOUNT_LEN as int] == 2 {
        Ok(data.skip(EXTENSIONS_START as int))
    } else {
        Err(InstructionError::InvalidAccountData)
    }
}

/// Whether a token account can carry an extension of this type: transfer fee
/// amount, confidential transfer, immutable owner, memo transfer, CPI guard,
/// non-transferable, transfer hook, confidential transfer fee amount.
pub open spec fn is_account_extension(kind: int) -> bool {
    kind == 2 || kind == 5 || kind == 7 || kind == 8 || kind == 11 || kind == 13 || kind
        == HOOK_EXTENSION || kind == 17
}

/// The flag of the transfer-hook extension among `extensions`, or `None` where
/// it cannot be read. Each extension is a type and a length, of two bytes each,
/// and a value. The first one of the hook's type decides, and its value is one
/// byte; a type that no token account carries ends the search.
pub open spec fn transferring_flag(extensions: Seq<u8>) -> Option<bool>
    decreases extensions.len(),
{
    if extensions.len() < 4 {
        None
    } else {
        let kind = extensions[0] + 256 * extensions[1];
        let end = 4 + extensions[2] + 256 * extensions[3];
        if kind == HOOK_EXTENSION {
            if end == 5 && extensions.len() >= 5 {
                Some(extensions[4] != 0)
            } else {
                None
            }
        } else if is_account_extension(kind) && end < extensions.len() {
            transferring_flag(extensions.skip(end))
        } else {
            None
        }
    }
}

/// The transferring flag of the token account that `data` holds, if it has one.
pub open spec fn hook_flag(data: Seq<u8>) -> Option<bool> {
    match token_account_extensions(data) {
        Ok(extensions) => transferring_flag(extensions),
        Err(_) => None,
    }
}

/// What the flag of the source account means for the hook.
pub open spec fn transferring_verdict(flag: Option<bool>) -> Result<(), TransferHookError> {
    match flag {
        Some(true) => Ok(()),
        Some(false) => Err(TransferHookError::NotTransferring),
        None => Err(TransferHookError::MetaResolution),
    }
}

/// `StateWithExtensions::<Account>::unpack`: reads a token account and gives
/// the bytes of its extensions. It fails where the fixed part cannot be read,
/// where the account is not initialized, and where what follows is not marked
/// as a token account's, in this order; the second failure has an error of its
/// own.
#[verifier::external_body]
pub(crate) fn unpack_extensions(data: &[u8]) -> (outcome: Result<Vec<u8>, InstructionError>)
    ensures
        match outcome {
            Ok(extensions) => token_account_extensions(data@) == Ok::<Seq<u8>, InstructionError>(
                extensions@,
            ),
            Err(error) => token_account_extensions(data@) == Err::<Seq<u8>, InstructionError>(
                error,
            ),
        },
{
    match spl_token_2022::extension::StateWithExtensions::<spl_token_2022::state::Account>::unpack(data) {
        Ok(account) => Ok(spl_token_2022::extension::BaseStateWithExtensions::get_tlv_data(&account).to_vec()),
        Err(anchor_lang::prelude::ProgramError::UninitializedAccount) => Err(InstructionError::UninitializedAccount),
        Err(_) => Err(InstructionError::InvalidAccountData),
    }
}

/// `get_extension::<TransferHookAccount>` on the token account that `data`
/// holds, and the flag in what it finds. It walks the extensions from the first
/// and fails where the hook's is not reached or is not one byte long.
#[verifier::external_body]
fn get_transferring(data: &[u8]) -> (outcome: Result<bool, anchor_lang::prelude::ProgramError>)
    ensures
        match outcome {
            Ok(flag) => hook_flag(data@) == Some(flag),
            Err(_) => hook_flag(data@) is None,
        },
{
    let account = spl_token_2022::extension::StateWithExtensions::<spl_token_2022::state::Account>::unpack(data)?;
    let extension = spl_token_2022::extension::BaseStateWithExtensions::get_extension::<spl_token_2022::extension::transfer_hook::TransferHookAccount>(&account)?;
    Ok(extension.transferring.into())
}

/// Decides on the flag of the source account: `None` where it could not be
/// read.
pub fn require_transferring(flag: Option<bool>) -> (outcome: Result<(), TransferHookError>)
    ensures
        outcome == transferring_verdict(flag),
{
    match flag {
        None => Err(TransferHookError::MetaResolution),
        Some(transferring) => {
            if !transferring {
                Err(TransferHookError::NotTransferring)
            } else {
                Ok(())
            }
        },
    }
}

/// Confirms that the token program has marked the source account as being in
/// the middle of a transfer.
pub fn check_is_transferring(source: &TokenAccount) -> (outcome: Result<(), TransferHookError>)
    ensures
        outcome == transferring_verdict(hook_flag(source.data@)),
{
    let flag: Option<bool> = match unpack_extensions(source.data.as_slice()) {
        Err(_) => None,
        Ok(_) => match get_transferring(source.data.as_slice()) {
            Err(_) => None,
            Ok(transferring) => Some(transferring),
        },
    };
    require_transferring(flag)
}

} // verus!
