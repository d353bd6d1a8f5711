//! The rule, the stored state, the errors and the constants, on concrete values.

use anchor_lang::prelude::Pubkey;
use anchor_lang::AnchorSerialize;

use transfer_hook::constants::{ADMIN, ID, SEED, TRANSFER_HOOK_PROGRAM_ID};
use transfer_hook::error::{AccountDataError, TransferHookError, ERROR_CODE_OFFSET};
use transfer_hook::le::{i64_from_pattern, i64_to_pattern, u64_from_le, u64_to_le};
use transfer_hook::rate_limit::{
    load_rate_limit, RateLimit, INIT_SPACE, LIMIT_PER_WINDOW, RATE_LIMIT_DISCRIMINATOR,
    RATE_LIMIT_SPACE, WINDOW_SECONDS,
};

fn state(window_start: i64, window_total: u64) -> RateLimit {
    RateLimit { window_start, window_total }
}

#[test]
fn the_limit_is_half_a_token_a_day() {
    assert_eq!(WINDOW_SECONDS, 24 * 60 * 60);
    assert_eq!(LIMIT_PER_WINDOW, 500_000);
    assert_eq!(INIT_SPACE, 16);
    assert_eq!(RATE_LIMIT_SPACE, 8 + INIT_SPACE);
}

#[test]
fn charges_add_up_to_the_limit() {
    let mut window = RateLimit::opened_at(100);
    assert_eq!(window, state(100, 0));
    assert_eq!(window.charge(100, 0), Ok(()));
    assert_eq!(window, state(100, 0));
    assert_eq!(window.charge(150, 499_999), Ok(()));
    assert_eq!(window, state(100, 499_999));
    assert_eq!(window.charge(150, 2), Err(TransferHookError::RateLimitExceeded));
    assert_eq!(window, state(100, 499_999));
    assert_eq!(window.charge(86_499, 1), Ok(()));
    assert_eq!(window, state(100, 500_000));
    assert_eq!(window.charge(86_499, 1), Err(TransferHookError::RateLimitExceeded));
    assert_eq!(window.charge(86_499, 0), Ok(()));
}

#[test]
fn a_window_is_over_after_exactly_a_day() {
    let mut window = state(100, 500_000);
    assert_eq!(window.charge(100 + 86_399, 1), Err(TransferHookError::RateLimitExceeded));
    assert_eq!(window.charge(100 + 86_400, 1), Ok(()));
    assert_eq!(window, state(100 + 86_400, 1));
}

#[test]
fn a_refused_charge_does_not_open_a_window() {
    let mut window = state(0, 7);
    assert_eq!(window.charge(1_000_000, 500_001), Err(TransferHookError::RateLimitExceeded));
    assert_eq!(window, state(0, 7));
}

#[test]
fn a_clock_that_goes_back_keeps_the_window() {
    let mut window = state(1_000_000, 10);
    assert_eq!(window.charge(-5, 5), Ok(()));
    assert_eq!(window, state(1_000_000, 15));
}

#[test]
fn a_total_beyond_64_bits_overflows() {
    let mut window = state(0, 1);
    assert_eq!(window.charge(0, u64::MAX), Err(TransferHookError::Overflow));
    assert_eq!(window.charge(0, u64::MAX - 1), Err(TransferHookError::RateLimitExceeded));
    assert_eq!(window.charge(86_400, u64::MAX), Err(TransferHookError::RateLimitExceeded));
    assert_eq!(window, state(0, 1));
}

#[test]
fn splitting_gains_nothing() {
    let mut whole = state(0, 100_000);
    let mut parts = state(0, 100_000);
    assert_eq!(whole.charge(5, 300_000), Ok(()));
    assert_eq!(parts.charge(5, 120_000), Ok(()));
    assert_eq!(parts.charge(5, 180_000), Ok(()));
    assert_eq!(whole, parts);
    assert_eq!(whole.charge(6, 100_001), Err(TransferHookError::RateLimitExceeded));
    assert_eq!(parts.charge(6, 100_000), Ok(()));
    assert_eq!(parts.charge(6, 1), Err(TransferHookError::RateLimitExceeded));
    assert_eq!(whole.charge(6, 100_000), Ok(()));
}

#[test]
fn two_limits_fit_around_the_end_of_a_window() {
    let mut window = RateLimit::opened_at(0);
    assert_eq!(window.charge(86_399, 500_000), Ok(()));
    assert_eq!(window.charge(86_400, 500_000), Ok(()));
    assert_eq!(window.charge(86_399 + 86_399, 1), Err(TransferHookError::RateLimitExceeded));
}

#[test]
fn the_total_counts_the_current_window_only() {
    let mut window = RateLimit::opened_at(0);
    assert_eq!(window.charge(10, 200_000), Ok(()));
    assert_eq!(window.charge(90_000, 300_000), Ok(()));
    assert_eq!(window.charge(90_001, 300_000), Err(TransferHookError::RateLimitExceeded));
    assert_eq!(window.charge(90_002, 50_000), Ok(()));
    assert_eq!(window, state(90_000, 350_000));
}

#[test]
fn stored_state_reads_back() {
    for window in [state(0, 0), state(1_750_000_000, 400_000), state(-1, u64::MAX), state(i64::MIN, 1), state(i64::MAX, 2)] {
        let data = window.try_serialize();
        assert_eq!(data.len(), RATE_LIMIT_SPACE);
        assert_eq!(data[..8], RATE_LIMIT_DISCRIMINATOR);
        let mut fields = Vec::new();
        window.window_start.serialize(&mut fields).unwrap();
        window.window_total.serialize(&mut fields).unwrap();
        assert_eq!(data[8..], fields[..]);
        assert_eq!(RateLimit::try_deserialize(&data), Ok(window));
    }
    assert_eq!(
        state(-2, 258).try_serialize()[8..],
        [254, 255, 255, 255, 255, 255, 255, 255, 2, 1, 0, 0, 0, 0, 0, 0]
    );
}

#[test]
fn the_discriminator_is_the_hash_of_the_account_name() {
    let hash = anchor_lang::solana_program::hash::hash(b"account:RateLimit");
    assert_eq!(RATE_LIMIT_DISCRIMINATOR, hash.to_bytes()[..8]);
}

#[test]
fn bytes_past_the_fields_are_ignored() {
    let mut data = state(3, 4).try_serialize();
    data.extend_from_slice(&[9, 9]);
    assert_eq!(RateLimit::try_deserialize(&data), Ok(state(3, 4)));
}

#[test]
fn other_data_is_no_state() {
    let data = state(3, 4).try_serialize();
    assert_eq!(
        RateLimit::try_deserialize(&data[..7]),
        Err(AccountDataError::AccountDiscriminatorNotFound)
    );
    assert_eq!(
        RateLimit::try_deserialize(&data[..23]),
        Err(AccountDataError::AccountDidNotDeserialize)
    );
    let mut other = data.clone();
    other[7] ^= 1;
    assert_eq!(
        RateLimit::try_deserialize(&other),
        Err(AccountDataError::AccountDiscriminatorMismatch)
    );
    assert_eq!(
        RateLimit::try_deserialize(&other[..8]),
        Err(AccountDataError::AccountDiscriminatorMismatch)
    );
}

#[test]
fn only_the_programs_own_accounts_are_loaded() {
    let data = state(3, 4).try_serialize();
    assert_eq!(load_rate_limit(&ID, 1, &data, &ID), Ok(state(3, 4)));
    assert_eq!(load_rate_limit(&ID, 0, &data, &ID), Ok(state(3, 4)));
    assert_eq!(
        load_rate_limit(&ADMIN, 1, &data, &ID),
        Err(AccountDataError::AccountOwnedByWrongProgram)
    );
    assert_eq!(
        load_rate_limit(&[0; 32], 1, &data, &ID),
        Err(AccountDataError::AccountOwnedByWrongProgram)
    );
    assert_eq!(
        load_rate_limit(&[0; 32], 0, &[], &ID),
        Err(AccountDataError::AccountNotInitialized)
    );
    assert_eq!(
        load_rate_limit(&ID, 1, &[], &ID),
        Err(AccountDataError::AccountDiscriminatorNotFound)
    );
    assert_eq!(
        load_rate_limit(&ID, 1, &[0; 51], &ID),
        Err(AccountDataError::AccountDiscriminatorMismatch)
    );
    assert_eq!(
        load_rate_limit(&ID, 1, &data[..20], &ID),
        Err(AccountDataError::AccountDidNotDeserialize)
    );
}

#[test]
fn little_endian_numbers() {
    for value in [0, 1, 255, 256, 0x0123_4567_89ab_cdef, u64::MAX] {
        assert_eq!(u64_to_le(value), value.to_le_bytes());
        assert_eq!(u64_from_le(&value.to_le_bytes()), value);
    }
    for value in [0, 1, -1, i64::MIN, i64::MAX, -86_400] {
        assert_eq!(i64_to_pattern(value), value as u64);
        assert_eq!(i64_from_pattern(value as u64), value);
    }
}

#[test]
fn errors_have_their_codes_and_texts() {
    assert_eq!(ERROR_CODE_OFFSET, anchor_lang::error::ERROR_CODE_OFFSET);
    assert_eq!(TransferHookError::NotTransferring.code(), 6000);
    assert_eq!(TransferHookError::RateLimitExceeded.code(), 6001);
    assert_eq!(TransferHookError::Overflow.code(), 6002);
    assert_eq!(TransferHookError::MetaResolution.code(), 6003);
    assert_eq!(
        TransferHookError::NotTransferring.message(),
        "Hook can only be invoked from a real transfer"
    );
    assert_eq!(
        TransferHookError::RateLimitExceeded.message(),
        "Transfer exceeds the rate limit for this window"
    );
    assert_eq!(TransferHookError::Overflow.message(), "Arithmetic overflow");
    assert_eq!(
        TransferHookError::MetaResolution.message(),
        "Failed to resolve or read extra-account metadata"
    );
}

#[test]
fn constants_are_their_addresses() {
    assert_eq!(SEED, "anchor");
    assert_eq!(
        Pubkey::new_from_array(ID).to_string(),
        "Dszak9xWCHKeMKbNWx27u4mpo5ADFwqmC4iBS2w3bccZ"
    );
    assert_eq!(
        Pubkey::new_from_array(ADMIN).to_string(),
        "7pjuYyeNyo2MxeBPeiJ8eTFJgpkSsM28wuNuQTHeHzyT"
    );
    assert_eq!(TRANSFER_HOOK_PROGRAM_ID, ID);
}
