//! The list of extra accounts that a transfer of the mint has to bring along.

use vstd::prelude::*;
use vstd::slice::slice_to_vec;

use crate::error::TransferHookError;
use crate::instruction::EXECUTE_TAG;
use crate::le::le_bytes;
use crate::pda::RATE_LIMIT_SEED;

verus! {

/// The framework's program error, carried through and mapped to an error of
/// the hook.
#[verifier::external_type_specification]
#[verifier::external_body]
pub struct ExProgramError(anchor_lang::prelude::ProgramError);

/// One seed of an address that is derived anew for every transfer.
#[derive(Debug)]
pub enum Seed {
    /// Fixed bytes.
    Literal { bytes: Vec<u8> },
    /// The address of the transfer's account at `index`.
    AccountKey { index: u8 },
}

/// A seed as a mathematical value.
pub enum SeedView {
    Literal { bytes: Seq<u8> },
    AccountKey { index: u8 },
}

impl View for Seed {
    type V = SeedView;

    open spec fn view(&self) -> SeedView {
        match self {
            Seed::Literal { bytes } => SeedView::Literal { bytes: bytes@ },
            Seed::AccountKey { index } => SeedView::AccountKey { index: *index },
        }
    }
}

/// One entry of the list.
#[derive(Clone, Copy, Debug, PartialEq, Eq)]
pub struct ExtraAccountMeta {
    /// What `address_config` holds; 1 stands for packed seeds.
    pub discriminator: u8,
    /// How the address comes about.
    pub address_config: [u8; 32],
    /// Whether the account has to sign.
    pub is_signer: bool,
    /// Whether the account is written.
    pub is_writable: bool,
}

/// Bytes of one stored entry.
pub const META_LEN: usize = 35;

/// Bytes in front of the entries: type, length, count.
pub const LIST_HEADER_LEN: usize = 16;

/// `count` zero bytes.
pub open spec fn zeros(count: nat) -> Seq<u8> {
    Seq::new(count, |i: int| 0u8)
}

/// A seed as it is packed: a tag, then a length and bytes, or an index.
pub open spec fn packed_seed(seed: SeedView) -> Seq<u8> {
    match seed {
        SeedView::Literal { bytes } => seq![1u8, bytes.len() as u8] + bytes,
        SeedView::AccountKey { index } => seq![3u8, index],
    }
}

/// Seeds packed one after the other.
pub open spec fn packed_seeds(seeds: Seq<SeedView>) -> Seq<u8>
    decreases seeds.len(),
{
    if seeds.len() == 0 {
        Seq::empty()
    } else {
        packed_seed(seeds[0]) + packed_seeds(seeds.drop_first())
    }
}

/// The views of `seeds`.
pub open spec fn seed_views(seeds: Seq<Seed>) -> Seq<SeedView> {
    seeds.map_values(|seed: Seed| seed@)
}

/// Whether the length of every literal can be packed.
pub open spec fn literals_fit(seeds: Seq<SeedView>) -> bool {
    forall|i: int|
        #![trigger seeds[i]]
        0 <= i < seeds.len() ==> (seeds[i] matches SeedView::Literal { bytes } ==> bytes.len()
            <= 253)
}

/// Whether `meta` asks for the account that `seeds` lead to.
pub open spec fn is_seeds_meta(
    meta: ExtraAccountMeta,
    seeds: Seq<SeedView>,
    is_signer: bool,
    is_writable: bool,
) -> bool {
    let packed = packed_seeds(seeds);
    &&& packed.len() <= 32
    &&& meta.discriminator == 1
    &&& meta.address_config@ == packed + zeros((32 - packed.len()) as nat)
    &&& meta.is_signer == is_signer
    &&& meta.is_writable == is_writable
}

/// The seeds of the one extra account: the rate-limit prefix, the mint and the
/// sender's owner.
pub open spec fn hook_seeds() -> Seq<SeedView> {
    seq![
        SeedView::Literal { bytes: RATE_LIMIT_SEED@ },
        SeedView::AccountKey { index: 1 },
        SeedView::AccountKey { index: 3 },
    ]
}

/// `ExtraAccountMeta::new_with_seeds`: packs the seeds into 32 bytes, zero
/// padded, and marks the entry as holding seeds; fails where they take more
/// than 32 bytes. Longer literals than 253 bytes make its size computation
/// overflow.
#[verifier::external_body]
fn new_with_seeds(seeds: &[Seed], is_signer: bool, is_writable: bool) -> (outcome: Result<
    ExtraAccountMeta,
    anchor_lang::prelude::ProgramError,
>)
    requires
        literals_fit(seed_views(seeds@)),
    ensures
        match outcome {
            Ok(meta) => is_seeds_meta(meta, seed_views(seeds@), is_signer, is_writable),
            Err(_) => packed_seeds(seed_views(seeds@)).len() > 32,
        },
{
    let converted: Vec<spl_tlv_account_resolution::seeds::Seed> = seeds.iter().map(|seed| match seed {
        Seed::Literal { bytes } => spl_tlv_account_resolution::seeds::Seed::Literal { bytes: bytes.clone() },
        Seed::AccountKey { index } => spl_tlv_account_resolution::seeds::Seed::AccountKey { index: *index },
    }).collect();
    let meta = spl_tlv_account_resolution::account::ExtraAccountMeta::new_with_seeds(&converted, is_signer, is_writable)?;
    Ok(ExtraAccountMeta {
        discriminator: meta.discriminator,
        address_config: meta.address_config,
        is_signer: meta.is_signer.into(),
        is_writable: meta.is_writable.into(),
    })
}

/// `ExtraAccountMetaList::size_of`: the bytes that a list of `count` entries
/// takes, saturating at the top; fails where the entries alone overflow.
#[verifier::external_body]
fn size_of_list(count: usize) -> (outcome: Result<usize, anchor_lang::prelude::ProgramError>)
    ensures
        match outcome {
            Ok(size) => {
                &&& META_LEN * count + 4 <= usize::MAX
                &&& size == if META_LEN * count + LIST_HEADER_LEN <= usize::MAX {
                    META_LEN * count + LIST_HEADER_LEN
                } else {
                    usize::MAX as int
                }
            },
            Err(_) => META_LEN * count + 4 > usize::MAX,
        },
{
    spl_tlv_account_resolution::state::ExtraAccountMetaList::size_of(count)
}

/// Type and length of the list of an `Execute` instruction with `count` entries.
pub open spec fn list_tag(count: nat) -> Seq<u8> {
    EXECUTE_TAG@ + le_bytes(META_LEN as nat * count + 4, 4)
}

/// An entry as it is stored.
pub open spec fn stored_meta(meta: ExtraAccountMeta) -> Seq<u8> {
    seq![meta.discriminator] + meta.address_config@ + seq![
        if meta.is_signer {
            1u8
        } else {
            0u8
        },
        if meta.is_writable {
            1u8
        } else {
            0u8
        },
    ]
}

/// Entries stored one after the other.
pub open spec fn stored_metas(metas: Seq<ExtraAccountMeta>) -> Seq<u8>
    decreases metas.len(),
{
    if metas.len() == 0 {
        Seq::empty()
    } else {
        stored_meta(metas[0]) + stored_metas(metas.drop_first())
    }
}

/// A list as it is stored: type, length, count, entries.
pub open spec fn stored_list(metas: Seq<ExtraAccountMeta>) -> Seq<u8> {
    list_tag(metas.len()) + le_bytes(metas.len(), 4) + stored_metas(metas)
}

/// Whether writing a list of `metas` over zero bytes turned them into `after`
/// and gave `success`: it takes `LIST_HEADER_LEN` bytes and `META_LEN` for each
/// entry. Where there is too little room, only type and length are written, if
/// they fit.
pub open spec fn list_written(
    before: Seq<u8>,
    metas: Seq<ExtraAccountMeta>,
    after: Seq<u8>,
    success: bool,
) -> bool {
    let needed = LIST_HEADER_LEN + META_LEN * metas.len();
    &&& success == (before.len() >= needed)
    &&& after == if before.len() >= needed {
        stored_list(metas) + zeros((before.len() - needed) as nat)
    } else if before.len() >= 12 {
        list_tag(metas.len()) + zeros((before.len() - 12) as nat)
    } else {
        before
    }
}

/// `ExtraAccountMetaList::init` for the `Execute` instruction, on data that
/// holds zero bytes only, as a new account's does: writes the list at the
/// start, or fails where it does not fit. On other data it may panic.
#[verifier::external_body]
fn init_list(data: &mut [u8], metas: &[ExtraAccountMeta]) -> (outcome: Result<
    (),
    anchor_lang::prelude::ProgramError,
>)
    requires
        old(data)@ == zeros(old(data)@.len()),
        META_LEN * metas@.len() + 4 <= u32::MAX,
    ensures
        list_written(old(data)@, metas@, final(data)@, outcome is Ok),
{
    let converted: Vec<spl_tlv_account_resolution::account::ExtraAccountMeta> = metas.iter().map(|meta| spl_tlv_account_resolution::account::ExtraAccountMeta {
        discriminator: meta.discriminator,
        address_config: meta.address_config,
        is_signer: meta.is_signer.into(),
        is_writable: meta.is_writable.into(),
    }).collect();
    spl_tlv_account_resolution::state::ExtraAccountMetaList::init::<spl_transfer_hook_interface::instruction::ExecuteInstruction>(data, &converted)
}

/// The extra accounts that every transfer needs: the sender's rate-limit
/// account, writable, which does not sign.
pub fn hook_metas() -> (outcome: Result<Vec<ExtraAccountMeta>, TransferHookError>)
    ensures
        outcome matches Ok(metas) && metas@.len() == 1 && is_seeds_meta(
            metas@[0],
            hook_seeds(),
            false,
            true,
        ),
{
    let mut seeds: Vec<Seed> = Vec::new();
    seeds.push(Seed::Literal { bytes: slice_to_vec(RATE_LIMIT_SEED.as_slice()) });
    seeds.push(Seed::AccountKey { index: 1 });
    seeds.push(Seed::AccountKey { index: 3 });
    proof {
        assert(seed_views(seeds@) =~= hook_seeds());
        lemma_hook_seeds_packed();
    }
    match new_with_seeds(seeds.as_slice(), false, true) {
        Ok(meta) => {
            let mut metas: Vec<ExtraAccountMeta> = Vec::new();
            metas.push(meta);
            Ok(metas)
        },
        Err(_) => Err(TransferHookError::MetaResolution),
    }
}

/// The bytes into which the seeds of the extra account are packed.
pub proof fn lemma_hook_seeds_packed()
    ensures
        packed_seeds(hook_seeds()) == seq![1u8, 10] + RATE_LIMIT_SEED@ + seq![3u8, 1, 3, 3],
{
    reveal_with_fuel(packed_seeds, 4);
    assert(packed_seeds(hook_seeds()) =~= seq![1u8, 10] + RATE_LIMIT_SEED@ + seq![3u8, 1, 3, 3]);
}

/// The size of the account that holds a list of `count` entries.
pub fn list_size(count: usize) -> (outcome: Result<u64, TransferHookError>)
    ensures
        match outcome {
            Ok(size) => {
                &&& META_LEN * count + 4 <= usize::MAX
                &&& size == if META_LEN * count + LIST_HEADER_LEN <= usize::MAX {
                    META_LEN * count + LIST_HEADER_LEN
                } else {
                    usize::MAX as int
                }
            },
            Err(error) => error == TransferHookError::MetaResolution && META_LEN * count + 4
                > usize::MAX,
        },
{
    match size_of_list(count) {
        Ok(size) => Ok(size as u64),
        Err(_) => Err(TransferHookError::MetaResolution),
    }
}

/// Writes the list of `metas` into the data of a new account.
pub fn write_list(data: &mut [u8], metas: &[ExtraAccountMeta]) -> (outcome: Result<
    (),
    TransferHookError,
>)
    requires
        old(data)@ == zeros(old(data)@.len()),
        META_LEN * metas@.len() + 4 <= u32::MAX,
    ensures
        list_written(old(data)@, metas@, final(data)@, outcome is Ok),
        outcome matches Err(error) ==> error == TransferHookError::MetaResolution,
{
    match init_list(data, metas) {
        Ok(()) => Ok(()),
        Err(_) => Err(TransferHookError::MetaResolution),
    }
}

} // verus!
