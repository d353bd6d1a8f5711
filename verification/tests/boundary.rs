//! The calls into the token program's crates, held against those crates.

use anchor_lang::prelude::Pubkey;
use anchor_lang::solana_program::system_instruction;
use spl_tlv_account_resolution::state::ExtraAccountMetaList;
use spl_token_2022::extension::immutable_owner::ImmutableOwner;
use spl_token_2022::extension::transfer_hook::TransferHookAccount;
use spl_token_2022::extension::{BaseStateWithExtensionsMut, ExtensionType, StateWithExtensionsMut};
use spl_token_2022::state::{Account, AccountState};

use transfer_hook::accounts::{
    check_seeds, InitializeExtraAccountMetaList, InitializeRateLimit, RateLimitAccount, TransferHook,
};
use transfer_hook::constants::ID;
use transfer_hook::error::{InstructionError, TransferHookError};
use transfer_hook::extra_metas::{hook_metas, list_size, write_list, LIST_HEADER_LEN, META_LEN};
use transfer_hook::instruction::{
    claims_too_many_entries, route, EXECUTE_TAG, INITIALIZE_TAG, UPDATE_TAG,
};
use transfer_hook::pda::{
    extra_account_metas_address, rate_limit_address, same_key, EXTRA_ACCOUNT_METAS_SEED,
    RATE_LIMIT_SEED, SYSTEM_PROGRAM_ID,
};
use transfer_hook::program::{
    fallback, initialize_extra_account_meta_list, initialize_rate_limit, plan_with_bump,
    process_initialize_extra_account_meta_list, process_initialize_rate_limit, process_transfer_hook,
};
use transfer_hook::rate_limit::RateLimit;
use transfer_hook::token_account::{check_is_transferring, require_transferring, TokenAccount};

const MINT: [u8; 32] = [11; 32];
const OWNER: [u8; 32] = [22; 32];
const PAYER: [u8; 32] = [33; 32];

fn list_address(mint: &[u8; 32]) -> (Pubkey, u8) {
    Pubkey::find_program_address(&[b"extra-account-metas", mint], &Pubkey::new_from_array(ID))
}

fn limit_address(mint: &[u8; 32], owner: &[u8; 32]) -> (Pubkey, u8) {
    Pubkey::find_program_address(&[b"rate-limit", mint, owner], &Pubkey::new_from_array(ID))
}

/// The data of a token account with the given extensions, the hook's among them
/// set to `transferring`.
fn token_data(extensions: &[ExtensionType], transferring: bool) -> Vec<u8> {
    let len = ExtensionType::try_calculate_account_len::<Account>(extensions).unwrap();
    let mut data = vec![0u8; len];
    {
        let mut state = StateWithExtensionsMut::<Account>::unpack_uninitialized(&mut data).unwrap();
        for extension in extensions {
            match extension {
                ExtensionType::TransferHookAccount => {
                    state.init_extension::<TransferHookAccount>(true).unwrap().transferring =
                        transferring.into();
                }
                ExtensionType::ImmutableOwner => {
                    state.init_extension::<ImmutableOwner>(true).unwrap();
                }
                _ => unreachable!(),
            }
        }
        state.base = Account {
            mint: Pubkey::new_from_array(MINT),
            owner: Pubkey::new_from_array(OWNER),
            amount: 5,
            state: AccountState::Initialized,
            ..Default::default()
        };
        state.pack_base();
        state.init_account_type().unwrap();
    }
    data
}

fn source(data: Vec<u8>) -> TokenAccount {
    TokenAccount { key: [1; 32], data }
}

fn hook_accounts(data: Vec<u8>, state: RateLimit) -> TransferHook {
    TransferHook {
        source_token: source(data),
        mint: MINT,
        destination_token: [2; 32],
        owner: OWNER,
        extra_account_meta_list: list_address(&MINT).0.to_bytes(),
        rate_limit: RateLimitAccount { key: limit_address(&MINT, &OWNER).0.to_bytes(), state },
    }
}

fn in_transfer() -> Vec<u8> {
    token_data(&[ExtensionType::TransferHookAccount], true)
}

fn list_accounts() -> InitializeExtraAccountMetaList {
    InitializeExtraAccountMetaList {
        payer: PAYER,
        extra_account_meta_list: list_address(&MINT).0.to_bytes(),
        mint: MINT,
        system_program: [0; 32],
    }
}

fn limit_accounts(key: [u8; 32]) -> InitializeRateLimit {
    InitializeRateLimit {
        payer: PAYER,
        mint: MINT,
        owner: OWNER,
        rate_limit: RateLimitAccount { key, state: RateLimit { window_start: 1, window_total: 2 } },
        system_program: [0; 32],
    }
}

#[test]
fn seeds_are_their_texts() {
    assert_eq!(&EXTRA_ACCOUNT_METAS_SEED, b"extra-account-metas");
    assert_eq!(&RATE_LIMIT_SEED, b"rate-limit");
}

#[test]
fn addresses_are_derived() {
    let (address, bump) = list_address(&MINT);
    assert_eq!(extra_account_metas_address(&MINT, &ID), Some((address.to_bytes(), bump)));
    assert_ne!(extra_account_metas_address(&OWNER, &ID), Some((address.to_bytes(), bump)));

    let (address, bump) = limit_address(&MINT, &OWNER);
    assert_eq!(rate_limit_address(&MINT, &OWNER, &ID), Some((address.to_bytes(), bump)));
    assert_ne!(rate_limit_address(&OWNER, &MINT, &ID), Some((address.to_bytes(), bump)));
    assert_ne!(rate_limit_address(&MINT, &OWNER, &MINT), Some((address.to_bytes(), bump)));
}

#[test]
fn keys_are_compared_whole() {
    assert!(same_key(&MINT, &[11; 32]));
    for i in 0..32 {
        let mut other = MINT;
        other[i] ^= 1;
        assert!(!same_key(&MINT, &other));
    }
}

#[test]
fn seeds_constraints() {
    assert_eq!(check_seeds(&MINT, None), None);
    assert_eq!(check_seeds(&MINT, Some((MINT, 7))), Some(Ok(7)));
    assert_eq!(
        check_seeds(&MINT, Some((OWNER, 7))),
        Some(Err(InstructionError::ConstraintSeeds))
    );
    let (_, bump) = list_address(&MINT);
    assert_eq!(list_accounts().validate(&ID), Some(Ok(bump)));
    let (address, bump) = limit_address(&MINT, &OWNER);
    assert_eq!(limit_accounts(address.to_bytes()).validate(&ID), Some(Ok(bump)));
    assert_eq!(
        limit_accounts(MINT).validate(&ID),
        Some(Err(InstructionError::ConstraintSeeds))
    );
    let accounts = hook_accounts(in_transfer(), RateLimit::opened_at(0));
    assert_eq!(accounts.validate(&ID), Some(Ok(bump)));
}

#[test]
fn another_system_program_is_refused_before_the_seeds() {
    let refused = Some(Err(InstructionError::InvalidProgramId));
    assert_eq!(SYSTEM_PROGRAM_ID, anchor_lang::solana_program::system_program::ID.to_bytes());

    let mut list = list_accounts();
    list.system_program[31] = 1;
    assert_eq!(list.validate(&ID), refused);
    list.extra_account_meta_list = MINT;
    assert_eq!(list.validate(&ID), refused);
    let outcome = process_initialize_extra_account_meta_list(&ID, &list, true).unwrap();
    assert_eq!(outcome.err(), Some(InstructionError::InvalidProgramId));

    let mut limit = limit_accounts(limit_address(&MINT, &OWNER).0.to_bytes());
    limit.system_program = PAYER;
    let before = limit;
    assert_eq!(
        process_initialize_rate_limit(&ID, &mut limit, true, 5),
        Some(Err(InstructionError::InvalidProgramId))
    );
    assert_eq!(limit, before);
    limit.rate_limit.key = MINT;
    assert_eq!(limit.validate(&ID), refused);
}

#[test]
fn the_extra_account_is_packed() {
    let metas = hook_metas().unwrap();
    assert_eq!(metas.len(), 1);
    assert_eq!(metas[0].discriminator, 1);
    assert!(!metas[0].is_signer);
    assert!(metas[0].is_writable);
    let mut config = vec![1u8, 10];
    config.extend_from_slice(b"rate-limit");
    config.extend_from_slice(&[3, 1, 3, 3]);
    config.resize(32, 0);
    assert_eq!(metas[0].address_config.to_vec(), config);
}

#[test]
fn sizes_of_lists() {
    assert_eq!(META_LEN, 35);
    assert_eq!(LIST_HEADER_LEN, 16);
    assert_eq!(list_size(0), Ok(16));
    assert_eq!(list_size(1), Ok(51));
    assert_eq!(list_size(2), Ok(86));
    assert_eq!(list_size(usize::MAX), Err(TransferHookError::MetaResolution));
    let most = (usize::MAX - 4) / 35;
    let size = (35 * most as u128 + 16).min(usize::MAX as u128) as u64;
    assert_eq!(list_size(most), Ok(size));
    assert_eq!(list_size(most + 1), Err(TransferHookError::MetaResolution));
}

#[test]
fn lists_are_written() {
    let metas = hook_metas().unwrap();
    let mut expected = EXECUTE_TAG.to_vec();
    expected.extend_from_slice(&[39, 0, 0, 0, 1, 0, 0, 0, 1, 1, 10]);
    expected.extend_from_slice(b"rate-limit");
    expected.extend_from_slice(&[3, 1, 3, 3]);
    expected.extend_from_slice(&[0; 16]);
    expected.extend_from_slice(&[0, 1]);
    assert_eq!(expected.len(), 51);

    let mut data = vec![0u8; 51];
    assert_eq!(write_list(&mut data, &metas), Ok(()));
    assert_eq!(data, expected);

    let mut roomy = vec![0u8; 60];
    assert_eq!(write_list(&mut roomy, &metas), Ok(()));
    assert_eq!(roomy[..51], expected[..]);
    assert_eq!(roomy[51..], [0; 9]);

    let mut tight = vec![0u8; 50];
    assert_eq!(write_list(&mut tight, &metas), Err(TransferHookError::MetaResolution));
    assert_eq!(tight[..12], expected[..12]);
    assert_eq!(tight[12..], [0; 38]);

    let mut tiny = vec![0u8; 11];
    assert_eq!(write_list(&mut tiny, &metas), Err(TransferHookError::MetaResolution));
    assert_eq!(tiny, [0; 11]);

    let mut empty = vec![0u8; 16];
    assert_eq!(write_list(&mut empty, &[]), Ok(()));
    assert_eq!(empty[8..], [4, 0, 0, 0, 0, 0, 0, 0]);
}

#[test]
fn a_plan_fills_its_account() {
    let plan = plan_with_bump(&list_accounts(), &ID, 9).unwrap();
    assert_eq!(plan.bump, 9);
    assert_eq!(plan.account_size, 51);
    let (address, bump) = list_address(&MINT);
    let plan = initialize_extra_account_meta_list(&list_accounts(), &ID).unwrap();
    assert_eq!(plan.bump, bump);
    assert_eq!(
        plan.signer_seeds(),
        vec![b"extra-account-metas".to_vec(), MINT.to_vec(), vec![bump]]
    );
    assert_eq!(plan.account_size as usize, ExtraAccountMetaList::size_of(1).unwrap());
    let mut data = vec![0u8; plan.account_size as usize];
    assert_eq!(plan.write(&mut data), Ok(()));

    let create = plan.create_account(123_456);
    let expected = system_instruction::create_account(
        &Pubkey::new_from_array(PAYER), &address, 123_456, 51, &Pubkey::new_from_array(ID),
    );
    assert_eq!(create.program_id, expected.program_id.to_bytes());
    assert_eq!(create.program_id, [0; 32]);
    assert_eq!(create.data, expected.data);
    assert_eq!(create.data[..20], [0, 0, 0, 0, 64, 226, 1, 0, 0, 0, 0, 0, 51, 0, 0, 0, 0, 0, 0, 0]);
    assert_eq!(create.data[20..], ID);
    assert_eq!(create.accounts.len(), 2);
    assert_eq!(create.accounts[0].pubkey, PAYER);
    assert_eq!(create.accounts[1].pubkey, address.to_bytes());
    for (meta, expected) in create.accounts.iter().zip(&expected.accounts) {
        assert!(meta.is_signer && expected.is_signer);
        assert!(meta.is_writable && expected.is_writable);
    }
}

#[test]
fn a_plan_needs_the_lists_own_address() {
    let (_, bump) = list_address(&MINT);
    let plan =
        process_initialize_extra_account_meta_list(&ID, &list_accounts(), false).unwrap().unwrap();
    assert_eq!((plan.payer, plan.mint, plan.bump, plan.program_id), (PAYER, MINT, bump, ID));
    let other = InitializeExtraAccountMetaList { extra_account_meta_list: MINT, ..list_accounts() };
    let outcome = process_initialize_extra_account_meta_list(&ID, &other, true).unwrap();
    assert_eq!(outcome.err(), Some(InstructionError::ConstraintSeeds));
}

#[test]
fn a_list_is_made_once() {
    assert!(process_initialize_extra_account_meta_list(&ID, &list_accounts(), false).unwrap().is_ok());
    let again = InitializeExtraAccountMetaList { payer: OWNER, ..list_accounts() };
    let outcome = process_initialize_extra_account_meta_list(&ID, &again, true).unwrap();
    assert_eq!(outcome.err(), Some(InstructionError::AccountAlreadyInUse));
}

#[test]
fn a_wallet_is_registered_once() {
    let address = limit_address(&MINT, &OWNER).0.to_bytes();
    let fresh = limit_accounts(address);

    let mut accounts = fresh;
    assert_eq!(process_initialize_rate_limit(&ID, &mut accounts, false, 77), Some(Ok(())));
    assert_eq!(accounts.rate_limit.state, RateLimit { window_start: 77, window_total: 0 });
    assert_eq!(accounts.rate_limit.key, address);

    let before = accounts;
    assert_eq!(
        process_initialize_rate_limit(&ID, &mut accounts, true, 99),
        Some(Err(InstructionError::AccountAlreadyInUse))
    );
    assert_eq!(accounts, before);

    let mut elsewhere = limit_accounts(PAYER);
    assert_eq!(
        process_initialize_rate_limit(&ID, &mut elsewhere, true, 99),
        Some(Err(InstructionError::ConstraintSeeds))
    );
    assert_eq!(elsewhere, limit_accounts(PAYER));

    let mut accounts = fresh;
    initialize_rate_limit(&mut accounts, -3);
    assert_eq!(accounts.rate_limit.state, RateLimit { window_start: -3, window_total: 0 });
}

#[test]
fn anyone_can_pay_for_a_registration() {
    let address = limit_address(&MINT, &OWNER).0.to_bytes();
    for payer in [PAYER, OWNER, MINT] {
        let mut accounts = InitializeRateLimit { payer, ..limit_accounts(address) };
        assert_eq!(process_initialize_rate_limit(&ID, &mut accounts, false, 77), Some(Ok(())));
        assert_eq!(accounts.payer, payer);
        assert_eq!(accounts.rate_limit.key, address);
        assert_eq!(accounts.rate_limit.state, RateLimit { window_start: 77, window_total: 0 });
        assert_eq!(accounts.rate_limit.state.try_serialize().len(), 24);
    }
}

#[test]
fn the_flag_decides() {
    assert_eq!(require_transferring(Some(true)), Ok(()));
    assert_eq!(require_transferring(Some(false)), Err(TransferHookError::NotTransferring));
    assert_eq!(require_transferring(None), Err(TransferHookError::MetaResolution));
}

#[test]
fn the_flag_is_read_from_the_account() {
    let hook = ExtensionType::TransferHookAccount;
    let owner = ExtensionType::ImmutableOwner;
    for extensions in [vec![hook], vec![owner, hook], vec![hook, owner]] {
        assert_eq!(check_is_transferring(&source(token_data(&extensions, true))), Ok(()));
        assert_eq!(
            check_is_transferring(&source(token_data(&extensions, false))),
            Err(TransferHookError::NotTransferring)
        );
    }
    let mut data = token_data(&[hook], false);
    assert_eq!(data.len(), 171);
    data[170] = 2;
    assert_eq!(check_is_transferring(&source(data)), Ok(()));
}

#[test]
fn an_account_without_the_flag_is_unreadable() {
    let unreadable = Err(TransferHookError::MetaResolution);
    assert_eq!(check_is_transferring(&source(Vec::new())), unreadable);
    assert_eq!(check_is_transferring(&source(vec![0; 171])), unreadable);
    assert_eq!(check_is_transferring(&source(token_data(&[], true))), unreadable);
    let only_owner = token_data(&[ExtensionType::ImmutableOwner], true);
    assert_eq!(check_is_transferring(&source(only_owner)), unreadable);
    let mut cut = in_transfer();
    cut.truncate(170);
    assert_eq!(check_is_transferring(&source(cut)), unreadable);
    let mut mint_like = in_transfer();
    mint_like[165] = 1;
    assert_eq!(check_is_transferring(&source(mint_like)), unreadable);
}

/// What loading a source account with this data gives.
fn load(data: Vec<u8>) -> Option<InstructionError> {
    hook_accounts(data, RateLimit::opened_at(0)).validate(&ID).unwrap().err()
}

#[test]
fn a_source_that_is_no_token_account_is_not_loaded() {
    let invalid = Some(InstructionError::InvalidAccountData);
    assert_eq!(load(in_transfer()), None);
    assert_eq!(load(token_data(&[], true)), None);
    assert_eq!(load(Vec::new()), invalid);
    assert_eq!(load(in_transfer()[..164].to_vec()), invalid);
    assert_eq!(load(in_transfer()[..165].to_vec()), None);
    assert_eq!(load(in_transfer()[..166].to_vec()), invalid);
    assert_eq!(load(in_transfer()[..167].to_vec()), None);

    let mut padded = in_transfer();
    padded.resize(355, 0);
    assert_eq!(load(padded.clone()), invalid);
    padded.push(0);
    assert_eq!(load(padded), None);

    for (at, byte, error) in [
        (72, 1, None),
        (72, 2, invalid),
        (75, 1, invalid),
        (108, 0, Some(InstructionError::UninitializedAccount)),
        (108, 1, None),
        (108, 2, None),
        (108, 3, invalid),
        (109, 1, None),
        (110, 1, invalid),
        (129, 1, None),
        (132, 9, invalid),
        (165, 0, invalid),
        (165, 1, invalid),
        (165, 3, invalid),
    ] {
        let mut data = in_transfer();
        data[at] = byte;
        assert_eq!(load(data), error, "byte {} at {}", byte, at);
    }

    // An unreadable field is reported before a missing initialization, and that
    // before what follows the fixed part.
    let mut data = in_transfer();
    data[108] = 0;
    data[165] = 1;
    assert_eq!(load(data.clone()), Some(InstructionError::UninitializedAccount));
    data[129] = 2;
    assert_eq!(load(data), invalid);
}

#[test]
fn the_search_walks_the_extensions() {
    let base = in_transfer()[..166].to_vec();
    let outcome = |extensions: &[u8]| {
        let mut data = base.clone();
        data.extend_from_slice(extensions);
        check_is_transferring(&source(data))
    };
    let unreadable = Err(TransferHookError::MetaResolution);
    assert_eq!(outcome(&[15, 0, 1, 0, 1]), Ok(()));
    assert_eq!(outcome(&[15, 0, 1, 0, 0]), Err(TransferHookError::NotTransferring));
    assert_eq!(outcome(&[15, 0, 1, 0]), unreadable);
    assert_eq!(outcome(&[15, 0, 0, 0, 1]), unreadable);
    assert_eq!(outcome(&[15, 0, 2, 0, 1, 1]), unreadable);
    assert_eq!(outcome(&[15, 0, 2, 0, 1, 1, 15, 0, 1, 0, 1]), unreadable);
    assert_eq!(outcome(&[15, 0, 1, 0, 0, 15, 0, 1, 0, 1]), Err(TransferHookError::NotTransferring));
    assert_eq!(outcome(&[0, 0, 0, 0, 15, 0, 1, 0, 1]), unreadable);
    assert_eq!(outcome(&[15, 1, 0, 0, 15, 0, 1, 0, 1]), unreadable);
    for kind in 0..=30u8 {
        let expected =
            if [2, 5, 7, 8, 11, 13, 17].contains(&kind) { Ok(()) } else { unreadable };
        if kind != 15 {
            assert_eq!(outcome(&[kind, 0, 3, 0, 9, 9, 9, 15, 0, 1, 0, 1]), expected, "{}", kind);
            assert_eq!(outcome(&[kind, 0, 8, 0, 9, 9, 9, 15, 0, 1, 0, 1]), unreadable);
            assert_eq!(outcome(&[kind, 0, 0, 1, 9, 9, 9, 15, 0, 1, 0, 1]), unreadable);
        }
    }
    let mut long = vec![7u8, 0, 4, 1];
    long.extend_from_slice(&[3; 260]);
    long.extend_from_slice(&[15, 0, 1, 0, 7]);
    assert_eq!(outcome(&long), Ok(()));
}

#[test]
fn tags_are_those_of_the_interface() {
    let execute = anchor_lang::solana_program::hash::hash(b"spl-transfer-hook-interface:execute");
    let initialize = anchor_lang::solana_program::hash::hash(
        b"spl-transfer-hook-interface:initialize-extra-account-metas",
    );
    let update = anchor_lang::solana_program::hash::hash(
        b"spl-transfer-hook-interface:update-extra-account-metas",
    );
    assert_eq!(EXECUTE_TAG, execute.to_bytes()[..8]);
    assert_eq!(INITIALIZE_TAG, initialize.to_bytes()[..8]);
    assert_eq!(UPDATE_TAG, update.to_bytes()[..8]);
}

#[test]
fn raw_instructions_are_routed() {
    let execute = spl_transfer_hook_interface::instruction::TransferHookInstruction::Execute {
        amount: 0x0102_0304_0506_0708,
    }
    .pack();
    assert_eq!(route(&execute), Ok(vec![8, 7, 6, 5, 4, 3, 2, 1]));
    let mut longer = execute.clone();
    longer.push(0xff);
    assert_eq!(route(&longer), Ok(vec![8, 7, 6, 5, 4, 3, 2, 1]));

    let unreadable = Err(InstructionError::Hook(TransferHookError::MetaResolution));
    assert_eq!(route(&execute[..15]), unreadable);
    assert_eq!(route(&execute[..7]), unreadable);
    assert_eq!(route(&[]), unreadable);
    assert_eq!(route(&[0; 16]), unreadable);

    let list = spl_transfer_hook_interface::instruction::TransferHookInstruction::InitializeExtraAccountMetaList {
        extra_account_metas: Vec::new(),
    }
    .pack();
    assert_eq!(route(&list), Err(InstructionError::InvalidInstructionData));
    let list = spl_transfer_hook_interface::instruction::TransferHookInstruction::UpdateExtraAccountMetaList {
        extra_account_metas: Vec::new(),
    }
    .pack();
    assert_eq!(route(&list), Err(InstructionError::InvalidInstructionData));
    assert_eq!(route(&INITIALIZE_TAG), unreadable);
    let mut uneven = UPDATE_TAG.to_vec();
    uneven.extend_from_slice(&[0; 5]);
    assert_eq!(route(&uneven), unreadable);
    let mut spare = UPDATE_TAG.to_vec();
    spare.extend_from_slice(&[0; 4 + 35]);
    assert_eq!(route(&spare), Err(InstructionError::InvalidInstructionData));
}

#[test]
fn claims_are_counted() {
    for tag in [INITIALIZE_TAG, UPDATE_TAG] {
        let mut data = tag.to_vec();
        data.extend_from_slice(&[1, 0, 0, 0]);
        assert!(claims_too_many_entries(&data));
        data.extend_from_slice(&[0; 34]);
        assert!(!claims_too_many_entries(&data));
        data.push(0);
        assert!(!claims_too_many_entries(&data));
        data[11] = 1;
        assert!(claims_too_many_entries(&data));
    }
    let mut data = EXECUTE_TAG.to_vec();
    data.extend_from_slice(&[1, 0, 0, 0]);
    assert!(!claims_too_many_entries(&data));
    assert!(!claims_too_many_entries(&INITIALIZE_TAG));
}

#[test]
fn the_fallback_runs_the_hook() {
    let window = RateLimit::opened_at(1_000);
    let mut accounts = hook_accounts(in_transfer(), window);
    let mut execute = EXECUTE_TAG.to_vec();
    execute.extend_from_slice(&300_000u64.to_le_bytes());
    assert_eq!(fallback(&ID, &mut accounts, &execute, 2_000), Some(Ok(())));
    assert_eq!(accounts.rate_limit.state, RateLimit { window_start: 1_000, window_total: 300_000 });
    assert_eq!(
        fallback(&ID, &mut accounts, &execute, 3_000),
        Some(Err(InstructionError::Hook(TransferHookError::RateLimitExceeded)))
    );
    let mut most = EXECUTE_TAG.to_vec();
    most.extend_from_slice(&u64::MAX.to_le_bytes());
    assert_eq!(
        fallback(&ID, &mut accounts, &most, 3_000),
        Some(Err(InstructionError::Hook(TransferHookError::Overflow)))
    );
    assert_eq!(accounts.rate_limit.state, RateLimit { window_start: 1_000, window_total: 300_000 });

    let mut list = INITIALIZE_TAG.to_vec();
    list.extend_from_slice(&[0; 4]);
    assert_eq!(
        fallback(&ID, &mut accounts, &list, 3_000),
        Some(Err(InstructionError::InvalidInstructionData))
    );
    list[8] = 1;
    assert_eq!(fallback(&ID, &mut accounts, &list, 3_000), None);
    assert_eq!(
        fallback(&ID, &mut accounts, &[1, 2, 3], 3_000),
        Some(Err(InstructionError::Hook(TransferHookError::MetaResolution)))
    );
    assert_eq!(accounts.rate_limit.state, RateLimit { window_start: 1_000, window_total: 300_000 });
}

#[test]
fn what_is_wrong_first_is_reported() {
    let mut accounts = hook_accounts(Vec::new(), RateLimit::opened_at(0));
    accounts.rate_limit.key = MINT;
    assert_eq!(
        process_transfer_hook(&ID, &mut accounts, &[0; 7], 0),
        Some(Err(InstructionError::InstructionDidNotDeserialize))
    );
    assert_eq!(
        process_transfer_hook(&ID, &mut accounts, &[0; 8], 0),
        Some(Err(InstructionError::InvalidAccountData))
    );
    accounts.source_token.data = vec![0; 165];
    assert_eq!(
        process_transfer_hook(&ID, &mut accounts, &[0; 8], 0),
        Some(Err(InstructionError::UninitializedAccount))
    );
    accounts.source_token.data = token_data(&[], true);
    assert_eq!(
        process_transfer_hook(&ID, &mut accounts, &[0; 8], 0),
        Some(Err(InstructionError::ConstraintSeeds))
    );
    accounts.rate_limit.key = limit_address(&MINT, &OWNER).0.to_bytes();
    assert_eq!(
        process_transfer_hook(&ID, &mut accounts, &[0; 8], 0),
        Some(Err(InstructionError::Hook(TransferHookError::MetaResolution)))
    );
    accounts.source_token.data = token_data(&[ExtensionType::TransferHookAccount], false);
    assert_eq!(
        process_transfer_hook(&ID, &mut accounts, &[0; 8], 0),
        Some(Err(InstructionError::Hook(TransferHookError::NotTransferring)))
    );
}
