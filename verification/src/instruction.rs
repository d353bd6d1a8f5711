//! Instructions that reach the hook, and the one that it sends.

use vstd::prelude::*;

use crate::error::{InstructionError, TransferHookError};
use crate::extra_metas::META_LEN;
use crate::le::{le_bytes, le_value, u64_to_le};
use crate::pda::{Pubkey, SYSTEM_PROGRAM_ID};

verus! {

/// The instructions of the transfer-hook interface. The lists that the last
/// two carry are of no use to the hook.
#[derive(Clone, Copy, Debug, PartialEq, Eq, Structural)]
pub enum TransferHookInstruction {
    /// Runs the hook on a transfer of `amount`.
    Execute { amount: u64 },
    /// Asks to write a list of extra accounts.
    InitializeExtraAccountMetaList,
    /// Asks to overwrite a list of extra accounts.
    UpdateExtraAccountMetaList,
}

/// First bytes of an `Execute` instruction.
pub const EXECUTE_TAG: [u8; 8] = [105, 37, 101, 197, 75, 251, 102, 26];

/// First bytes of an instruction that initializes a list.
pub const INITIALIZE_TAG: [u8; 8] = [43, 34, 13, 49, 167, 88, 235, 235];

/// First bytes of an instruction that updates a list.
pub const UPDATE_TAG: [u8; 8] = [157, 105, 42, 146, 102, 85, 241, 174];

/// Whether `data` opens with the eight bytes of `tag`.
pub open spec fn tagged(data: Seq<u8>, tag: Seq<u8>) -> bool {
    data.len() >= 8 && data.take(8) == tag
}

/// Whether what follows the tag is a count and a whole number of entries.
pub open spec fn carries_entries(data: Seq<u8>) -> bool {
    data.len() >= 12 && (data.len() - 12) % META_LEN as int == 0
}

/// The count of entries that a list instruction claims.
pub open spec fn claimed_entries(data: Seq<u8>) -> nat {
    le_value(data.subrange(8, 12))
}

/// Whether `data` is a list instruction that claims more entries than it
/// carries.
pub open spec fn overclaims(data: Seq<u8>) -> bool {
    &&& tagged(data, INITIALIZE_TAG@) || tagged(data, UPDATE_TAG@)
    &&& carries_entries(data)
    &&& claimed_entries(data) > (data.len() - 12) / META_LEN as int
}

/// The instruction that `data` spells, or `None` where it spells none.
pub open spec fn spelled(data: Seq<u8>) -> Option<TransferHookInstruction> {
    if tagged(data, EXECUTE_TAG@) {
        if data.len() >= 16 {
            Some(
                TransferHookInstruction::Execute { amount: le_value(data.subrange(8, 16)) as u64 },
            )
        } else {
            None
        }
    } else if tagged(data, INITIALIZE_TAG@) && carries_entries(data) {
        Some(TransferHookInstruction::InitializeExtraAccountMetaList)
    } else if tagged(data, UPDATE_TAG@) && carries_entries(data) {
        Some(TransferHookInstruction::UpdateExtraAccountMetaList)
    } else {
        None
    }
}

/// `TransferHookInstruction::unpack`: tells the instruction by its first eight
/// bytes and reads the amount of an `Execute`. It panics on a list instruction
/// that claims more entries than it carries.
#[verifier::external_body]
fn unpack_instruction(data: &[u8]) -> (outcome: Result<
    TransferHookInstruction,
    anchor_lang::prelude::ProgramError,
>)
    requires
        !overclaims(data@),
    ensures
        match outcome {
            Ok(instruction) => spelled(data@) == Some(instruction),
            Err(_) => spelled(data@) is None,
        },
{
    let unpacked = spl_transfer_hook_interface::instruction::TransferHookInstruction::unpack(data)?;
    Ok(match unpacked {
        spl_transfer_hook_interface::instruction::TransferHookInstruction::Execute { amount } => TransferHookInstruction::Execute { amount },
        spl_transfer_hook_interface::instruction::TransferHookInstruction::InitializeExtraAccountMetaList { .. } => TransferHookInstruction::InitializeExtraAccountMetaList,
        spl_transfer_hook_interface::instruction::TransferHookInstruction::UpdateExtraAccountMetaList { .. } => TransferHookInstruction::UpdateExtraAccountMetaList,
    })
}

/// Where a raw instruction goes: the bytes of the amount for the hook, or the
/// error.
pub open spec fn routed(data: Seq<u8>) -> Result<Seq<u8>, InstructionError> {
    match spelled(data) {
        Some(TransferHookInstruction::Execute { amount }) => Ok(le_bytes(amount as nat, 8)),
        Some(_) => Err(InstructionError::InvalidInstructionData),
        None => Err(InstructionError::Hook(TransferHookError::MetaResolution)),
    }
}

/// Reads a raw interface instruction and gives the argument bytes under which
/// the hook is to run.
pub fn route(data: &[u8]) -> (outcome: Result<Vec<u8>, InstructionError>)
    requires
        !overclaims(data@),
    ensures
        match outcome {
            Ok(arguments) => routed(data@) == Ok::<Seq<u8>, InstructionError>(arguments@),
            Err(error) => routed(data@) == Err::<Seq<u8>, InstructionError>(error),
        },
{
    match unpack_instruction(data) {
        Err(_) => Err(InstructionError::Hook(TransferHookError::MetaResolution)),
        Ok(TransferHookInstruction::Execute { amount }) => Ok(u64_to_le(amount)),
        Ok(_) => Err(InstructionError::InvalidInstructionData),
    }
}

/// Whether `data` opens with the eight bytes of `tag`.
fn opens_with(data: &[u8], tag: &[u8; 8]) -> (opens: bool)
    ensures
        opens == tagged(data@, tag@),
{
    if data.len() < 8 {
        return false;
    }
    let mut i: usize = 0;
    while i < 8
        invariant
            i <= 8,
            data@.len() >= 8,
            forall|j: int| 0 <= j < i ==> data@[j] == tag@[j],
        decreases 8 - i,
    {
        if data[i] != tag[i] {
            assert(data@.take(8)[i as int] != tag@[i as int]);
            return false;
        }
        i = i + 1;
    }
    assert(data@.take(8) =~= tag@);
    true
}

/// Whether `data` is a list instruction that claims more entries than it
/// carries; the program aborts on such an instruction.
pub fn claims_too_many_entries(data: &[u8]) -> (too_many: bool)
    ensures
        too_many == overclaims(data@),
{
    if !opens_with(data, &INITIALIZE_TAG) && !opens_with(data, &UPDATE_TAG) {
        return false;
    }
    if data.len() < 12 || (data.len() - 12) % META_LEN != 0 {
        return false;
    }
    let carried: usize = (data.len() - 12) / META_LEN;
    let claimed: u64 = (data[8] as u64) + 256 * ((data[9] as u64) + 256 * ((data[10] as u64) + 256 * (
    data[11] as u64)));
    proof {
        let count = data@.subrange(8, 12);
        reveal_with_fuel(le_value, 5);
        assert(count[0] == data@[8]);
        assert(count.drop_first()[0] == data@[9]);
        assert(count.drop_first().drop_first()[0] == data@[10]);
        assert(count.drop_first().drop_first().drop_first()[0] == data@[11]);
        assert(count.drop_first().drop_first().drop_first().drop_first().len() == 0);
    }
    claimed > carried as u64
}

/// One account that an instruction names.
#[derive(Clone, Copy, Debug, PartialEq, Eq)]
pub struct AccountMeta {
    pub pubkey: Pubkey,
    pub is_signer: bool,
    pub is_writable: bool,
}

/// A call of another program.
#[derive(Debug, PartialEq, Eq)]
pub struct Instruction {
    pub program_id: Pubkey,
    pub accounts: Vec<AccountMeta>,
    pub data: Vec<u8>,
}

/// The argument bytes with which the system program creates an account.
pub open spec fn create_account_data(lamports: u64, space: u64, owner: Seq<u8>) -> Seq<u8> {
    le_bytes(0, 4) + le_bytes(lamports as nat, 8) + le_bytes(space as nat, 8) + owner
}

/// Whether `instruction` asks the system program to let `from` pay `lamports`
/// for a new account `to` of `space` bytes that belongs to `owner`. Both
/// accounts sign and are written.
pub open spec fn creates_account(
    instruction: Instruction,
    from: Seq<u8>,
    to: Seq<u8>,
    lamports: u64,
    space: u64,
    owner: Seq<u8>,
) -> bool {
    &&& instruction.program_id@ == SYSTEM_PROGRAM_ID@
    &&& instruction.accounts@.len() == 2
    &&& instruction.accounts@[0].pubkey@ == from
    &&& instruction.accounts@[1].pubkey@ == to
    &&& forall|i: int|
        #![trigger instruction.accounts@[i]]
        0 <= i < 2 ==> instruction.accounts@[i].is_signer && instruction.accounts@[i].is_writable
    &&& instruction.data@ == create_account_data(lamports, space, owner)
}

/// `system_instruction::create_account`: the system program's instruction that
/// creates an account.
#[verifier::external_body]
pub(crate) fn create_account(from: &Pubkey, to: &Pubkey, lamports: u64, space: u64, owner: &Pubkey) -> (instruction: Instruction)
    ensures
        creates_account(instruction, from@, to@, lamports, space, owner@),
{
    let created = anchor_lang::solana_program::system_instruction::create_account(&(*from).into(), &(*to).into(), lamports, space, &(*owner).into());
    Instruction {
        program_id: created.program_id.to_bytes(),
        accounts: created.accounts.iter().map(|meta| AccountMeta {
            pubkey: meta.pubkey.to_bytes(),
            is_signer: meta.is_signer,
            is_writable: meta.is_writable,
        }).collect(),
        data: created.data,
    }
}

} // verus!
