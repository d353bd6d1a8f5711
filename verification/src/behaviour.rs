//! What each operation comes to, in plain numbers and bytes.
//!
//! The laws here take their premises from the inputs alone: times and amounts,
//! bytes at their places, and the address that the derivation finds for a list
//! of seeds.

use vstd::prelude::*;

use crate::accounts::{
    seeds_verdict, InitializeExtraAccountMetaList, InitializeRateLimit, RateLimitAccount,
    TransferHook,
};
use crate::error::{
    message_of, position_of, AccountDataError, InstructionError, TransferHookError,
};
use crate::extra_metas::{
    lemma_hook_seeds_packed, list_written, stored_meta, stored_metas, ExtraAccountMeta,
};
use crate::instruction::{
    creates_account, overclaims, routed, Instruction, EXECUTE_TAG, INITIALIZE_TAG, UPDATE_TAG,
};
use crate::laws::{law_read_is_what_was_stored, law_stored_state_reads_back};
use crate::le::{
    i64_of_pattern, i64_pattern, le_bytes, le_value, lemma_le_capacity_of_u32,
    lemma_le_capacity_of_u64, lemma_le_read_then_write, lemma_le_write_then_read,
};
use crate::pda::{
    derived_view, extra_account_metas_derived, extra_account_metas_seeds, program_address,
    rate_limit_derived, rate_limit_seeds, seed_bytes, Pubkey, EXTRA_ACCOUNT_METAS_SEED,
    RATE_LIMIT_SEED, SYSTEM_PROGRAM_ID,
};
use crate::program::{
    fallen_back, hook_outcome, is_plan_for, list_signer_seeds, list_verdict, processed, registered,
    reports, with_state, MetaListPlan,
};
use crate::rate_limit::{
    age_fits, charged, loaded_rate_limit, read_state, stored, window_at, window_is_over, RateLimit,
    RATE_LIMIT_DISCRIMINATOR,
};
use crate::token_account::{
    hook_flag, token_account_extensions, transferring_flag, transferring_verdict,
};

verus! {

// The rule.

/// A window lasts 86,400 seconds and lets 500,000 through. From 86,400 seconds
/// on, however many, the whole limit is there again and a new window opens at
/// `now`; before that, the window stays, whatever the clock says, and the
/// amount adds to it.
pub proof fn law_charge_in_numbers(state: RateLimit, now: i64, amount: u64)
    ensures
        now - state.window_start >= 86_400 && amount <= 500_000 ==> charged(state, now, amount)
            == Ok::<RateLimit, TransferHookError>(
            RateLimit { window_start: now, window_total: amount },
        ),
        now - state.window_start >= 86_400 && amount > 500_000 ==> charged(state, now, amount)
            == Err::<RateLimit, TransferHookError>(TransferHookError::RateLimitExceeded),
        now - state.window_start < 86_400 && state.window_total + amount <= 500_000 ==> charged(
            state,
            now,
            amount,
        ) == Ok::<RateLimit, TransferHookError>(
            RateLimit {
                window_start: state.window_start,
                window_total: (state.window_total + amount) as u64,
            },
        ),
        now - state.window_start < 86_400 && 500_000 < state.window_total + amount
            <= 0xffff_ffff_ffff_ffff ==> charged(state, now, amount) == Err::<
            RateLimit,
            TransferHookError,
        >(TransferHookError::RateLimitExceeded),
        now - state.window_start < 86_400 && state.window_total + amount > 0xffff_ffff_ffff_ffff
            ==> charged(state, now, amount) == Err::<RateLimit, TransferHookError>(
            TransferHookError::Overflow,
        ),
{
}

/// A window is over from its 86,400th second on, and its age can be told
/// wherever it is a signed 64-bit number, as it is between any two times that
/// are not negative.
pub proof fn law_window_age_in_numbers(state: RateLimit, now: i64)
    ensures
        window_is_over(state, now) <==> now - state.window_start >= 86_400,
        window_at(state, now) == if now - state.window_start >= 86_400 {
            RateLimit { window_start: now, window_total: 0 }
        } else {
            state
        },
        age_fits(state, now) <==> -0x8000_0000_0000_0000 <= now - state.window_start
            <= 0x7fff_ffff_ffff_ffff,
        state.window_start >= 0 && now >= 0 ==> age_fits(state, now),
        state.wf() <==> state.window_total <= 500_000,
{
}

/// Only the time since the window opened counts, not the date.
pub proof fn law_charge_ignores_the_date(state: RateLimit, now: i64, amount: u64, shift: int)
    requires
        i64::MIN <= state.window_start + shift <= i64::MAX,
        i64::MIN <= now + shift <= i64::MAX,
    ensures
        ({
            let moved = RateLimit { window_start: (state.window_start + shift) as i64, ..state };
            match charged(state, now, amount) {
                Ok(next) => charged(moved, (now + shift) as i64, amount) == Ok::<
                    RateLimit,
                    TransferHookError,
                >(RateLimit { window_start: (next.window_start + shift) as i64, ..next }),
                Err(error) => charged(moved, (now + shift) as i64, amount) == Err::<
                    RateLimit,
                    TransferHookError,
                >(error),
            }
        }),
{
}

/// Waiting never costs a wallet anything: what it may move now it may move at
/// any later time.
pub proof fn law_waiting_never_hurts(state: RateLimit, now: i64, later: i64, amount: u64)
    requires
        now <= later,
        charged(state, now, amount) is Ok,
    ensures
        charged(state, later, amount) is Ok,
{
}

/// No wallet is locked out: whatever it has moved, an amount within the limit
/// goes through at every time from one day after the window opened.
pub proof fn law_nobody_is_locked_out(state: RateLimit, now: i64, amount: u64)
    requires
        state.window_start + 86_400 <= now,
        amount <= 500_000,
    ensures
        charged(state, now, amount) matches Ok(next) && next.window_start == now
            && next.window_total == amount,
{
}

// Numbers as bytes.

/// Eight bytes spell the sum of their values, each weighing 256 times the one
/// before, and so do four.
pub proof fn law_bytes_weigh_by_place(b: Seq<u8>)
    ensures
        b.len() == 8 ==> le_value(b) == b[0] + 0x100 * b[1] + 0x1_0000 * b[2] + 0x100_0000 * b[3]
            + 0x1_0000_0000 * b[4] + 0x100_0000_0000 * b[5] + 0x1_0000_0000_0000 * b[6]
            + 0x100_0000_0000_0000 * b[7],
        b.len() == 4 ==> le_value(b) == b[0] + 0x100 * b[1] + 0x1_0000 * b[2] + 0x100_0000 * b[3],
{
    reveal_with_fuel(le_value, 9);
    let b1 = b.drop_first();
    let b2 = b1.drop_first();
    let b3 = b2.drop_first();
    let b4 = b3.drop_first();
    let b5 = b4.drop_first();
    let b6 = b5.drop_first();
    let b7 = b6.drop_first();
    if b.len() == 8 {
        assert(b1[0] == b[1] && b2[0] == b[2] && b3[0] == b[3] && b4[0] == b[4]);
        assert(b5[0] == b[5] && b6[0] == b[6] && b7[0] == b[7]);
        assert(b7.drop_first().len() == 0);
    } else if b.len() == 4 {
        assert(b1[0] == b[1] && b2[0] == b[2] && b3[0] == b[3]);
        assert(b4.len() == 0);
    }
}

/// The eight bytes of a 64-bit number, and the four of a 32-bit one, weigh that
/// number.
pub proof fn law_written_bytes_weigh_the_number(value: u64, small: u32)
    ensures
        ({
            let b = le_bytes(value as nat, 8);
            b.len() == 8 && value == b[0] + 0x100 * b[1] + 0x1_0000 * b[2] + 0x100_0000 * b[3]
                + 0x1_0000_0000 * b[4] + 0x100_0000_0000 * b[5] + 0x1_0000_0000_0000 * b[6]
                + 0x100_0000_0000_0000 * b[7]
        }),
        ({
            let b = le_bytes(small as nat, 4);
            b.len() == 4 && small == b[0] + 0x100 * b[1] + 0x1_0000 * b[2] + 0x100_0000 * b[3]
        }),
{
    lemma_le_capacity_of_u64();
    lemma_le_capacity_of_u32();
    lemma_le_write_then_read(value as nat, 8);
    lemma_le_write_then_read(small as nat, 4);
    law_bytes_weigh_by_place(le_bytes(value as nat, 8));
    law_bytes_weigh_by_place(le_bytes(small as nat, 4));
}

/// A negative number is written as the number 2^64 above it, and read back as
/// what it was.
pub proof fn law_negative_numbers_wrap(value: i64, pattern: u64)
    ensures
        value >= 0 ==> i64_pattern(value) == value,
        value < 0 ==> i64_pattern(value) == value + 0x1_0000_0000_0000_0000,
        i64_of_pattern(i64_pattern(value)) == value,
        i64_pattern(i64_of_pattern(pattern as nat)) == pattern,
{
}

// The stored state.

/// A state is stored in 24 bytes: the discriminator, then eight bytes that weigh
/// the start of the window, 2^64 more where it is negative, then eight that
/// weigh the total.
pub proof fn law_stored_state_in_bytes(state: RateLimit)
    ensures
        ({
            let d = stored(state);
            let start = d[8] + 0x100 * d[9] + 0x1_0000 * d[10] + 0x100_0000 * d[11]
                + 0x1_0000_0000 * d[12] + 0x100_0000_0000 * d[13] + 0x1_0000_0000_0000 * d[14]
                + 0x100_0000_0000_0000 * d[15];
            let total = d[16] + 0x100 * d[17] + 0x1_0000 * d[18] + 0x100_0000 * d[19]
                + 0x1_0000_0000 * d[20] + 0x100_0000_0000 * d[21] + 0x1_0000_0000_0000 * d[22]
                + 0x100_0000_0000_0000 * d[23];
            &&& d.len() == 24
            &&& d.take(8) == seq![135u8, 30, 107, 183, 187, 159, 75, 202]
            &&& state.window_start >= 0 ==> start == state.window_start
            &&& state.window_start < 0 ==> start == state.window_start + 0x1_0000_0000_0000_0000
            &&& total == state.window_total
        }),
{
    let d = stored(state);
    law_stored_state_reads_back(state, state);
    law_written_bytes_weigh_the_number(i64_pattern(state.window_start) as u64, 0);
    law_written_bytes_weigh_the_number(state.window_total, 0);
    assert(d.take(8) =~= RATE_LIMIT_DISCRIMINATOR@);
    assert(RATE_LIMIT_DISCRIMINATOR@ =~= seq![135u8, 30, 107, 183, 187, 159, 75, 202]);
    assert(d.subrange(8, 16) =~= le_bytes(i64_pattern(state.window_start), 8));
    assert(d.subrange(16, 24) =~= le_bytes(state.window_total as nat, 8));
    assert forall|i: int| 0 <= i < 8 implies d[8 + i] == #[trigger] d.subrange(8, 16)[i] by {}
    assert forall|i: int| 0 <= i < 8 implies d[16 + i] == #[trigger] d.subrange(16, 24)[i] by {}
    let start = d.subrange(8, 16);
    let total = d.subrange(16, 24);
    assert(start[0] == d[8] && start[1] == d[9] && start[2] == d[10] && start[3] == d[11]);
    assert(start[4] == d[12] && start[5] == d[13] && start[6] == d[14] && start[7] == d[15]);
    assert(total[0] == d[16] && total[1] == d[17] && total[2] == d[18] && total[3] == d[19]);
    assert(total[4] == d[20] && total[5] == d[21] && total[6] == d[22] && total[7] == d[23]);
}

/// Which data reads as a state, and why other data does not: it takes eight
/// bytes, the right ones, and 24 in all. What follows does not count.
pub proof fn law_reading_in_bytes(data: Seq<u8>)
    ensures
        ({
            let tag = seq![135u8, 30, 107, 183, 187, 159, 75, 202];
            &&& data.len() < 8 ==> read_state(data) == Err::<RateLimit, AccountDataError>(
                AccountDataError::AccountDiscriminatorNotFound,
            )
            &&& data.len() >= 8 && data.take(8) != tag ==> read_state(data) == Err::<
                RateLimit,
                AccountDataError,
            >(AccountDataError::AccountDiscriminatorMismatch)
            &&& 8 <= data.len() < 24 && data.take(8) == tag ==> read_state(data) == Err::<
                RateLimit,
                AccountDataError,
            >(AccountDataError::AccountDidNotDeserialize)
            &&& data.len() >= 24 && data.take(8) == tag ==> read_state(data) is Ok
                && read_state(data) == read_state(data.take(24))
        }),
{
    assert(RATE_LIMIT_DISCRIMINATOR@ =~= seq![135u8, 30, 107, 183, 187, 159, 75, 202]);
    if data.len() >= 24 {
        assert(data.take(24).take(8) =~= data.take(8));
        assert(data.take(24).subrange(8, 16) =~= data.subrange(8, 16));
        assert(data.take(24).subrange(16, 24) =~= data.subrange(16, 24));
    }
}

/// Whatever follows a stored state, it is read back as it was stored.
pub proof fn law_stored_state_is_read_whatever_follows(state: RateLimit, rest: Seq<u8>)
    ensures
        read_state(stored(state) + rest) == Ok::<RateLimit, AccountDataError>(state),
{
    let data = stored(state) + rest;
    law_stored_state_reads_back(state, state);
    assert(data.take(24) =~= stored(state));
    law_read_is_what_was_stored(data, state);
}

/// An account is loaded as its data reads where it belongs to the program, and
/// never otherwise; one that belongs to the system program and holds nothing
/// has not been made.
pub proof fn law_loading_goes_by_owner(
    owner: Seq<u8>,
    lamports: nat,
    data: Seq<u8>,
    program_id: Seq<u8>,
)
    ensures
        owner == program_id ==> loaded_rate_limit(owner, lamports, data, program_id) == read_state(
            data,
        ),
        owner != program_id ==> loaded_rate_limit(owner, lamports, data, program_id) == Err::<
            RateLimit,
            AccountDataError,
        >(
            if owner == SYSTEM_PROGRAM_ID@ && lamports == 0 {
                AccountDataError::AccountNotInitialized
            } else {
                AccountDataError::AccountOwnedByWrongProgram
            },
        ),
        SYSTEM_PROGRAM_ID@ == Seq::new(32, |i: int| 0u8),
{
    assert(SYSTEM_PROGRAM_ID@ =~= Seq::new(32, |i: int| 0u8));
}

// Addresses.

/// The seeds are the texts "extra-account-metas" and "rate-limit", the mint and,
/// for a wallet, its address, in this order; the address is what the derivation
/// finds for them.
pub proof fn law_seeds_in_bytes(mint: Seq<u8>, owner: Seq<u8>, program_id: Seq<u8>)
    ensures
        EXTRA_ACCOUNT_METAS_SEED@ == seq![
            101u8, 120, 116, 114, 97, 45, 97, 99, 99, 111, 117, 110, 116, 45, 109, 101, 116, 97,
            115,
        ],
        RATE_LIMIT_SEED@ == seq![114u8, 97, 116, 101, 45, 108, 105, 109, 105, 116],
        extra_account_metas_seeds(mint) == seq![EXTRA_ACCOUNT_METAS_SEED@, mint],
        rate_limit_seeds(mint, owner) == seq![RATE_LIMIT_SEED@, mint, owner],
        extra_account_metas_derived(mint, program_id) == program_address(
            seq![EXTRA_ACCOUNT_METAS_SEED@, mint],
            program_id,
        ),
        rate_limit_derived(mint, owner, program_id) == program_address(
            seq![RATE_LIMIT_SEED@, mint, owner],
            program_id,
        ),
{
    assert(EXTRA_ACCOUNT_METAS_SEED@ =~= seq![
        101u8, 120, 116, 114, 97, 45, 97, 99, 99, 111, 117, 110, 116, 45, 109, 101, 116, 97, 115,
    ]);
    assert(RATE_LIMIT_SEED@ =~= seq![114u8, 97, 116, 101, 45, 108, 105, 109, 105, 116]);
}

/// Seeds and derived addresses are handed over byte for byte.
pub proof fn law_addresses_are_handed_over_whole(
    seeds: Seq<&[u8]>,
    derived: Option<(Pubkey, u8)>,
)
    ensures
        seed_bytes(seeds).len() == seeds.len(),
        forall|i: int| 0 <= i < seeds.len() ==> #[trigger] seed_bytes(seeds)[i] == seeds[i]@,
        derived is None <==> derived_view(derived) is None,
        derived matches Some((address, bump)) ==> derived_view(derived) == Some((address@, bump)),
{
}

/// A seeds constraint takes exactly the derived address, whatever its bump, and
/// gives that bump.
pub proof fn law_derived_address_is_taken(
    key: Seq<u8>,
    address: Seq<u8>,
    bump: u8,
    derived: Option<(Seq<u8>, u8)>,
)
    ensures
        seeds_verdict(address, Some((address, bump))) == Some(Ok::<u8, InstructionError>(bump)),
        key != address ==> seeds_verdict(key, Some((address, bump))) == Some(
            Err::<u8, InstructionError>(InstructionError::ConstraintSeeds),
        ),
        seeds_verdict(key, derived) is None <==> derived is None,
{
}

// Token accounts.

/// Which data is a token account: 165 bytes at least, and not 166 or the 355 of
/// a multisignature; three optional fields, each tagged 0 or 1; a state of 1 or
/// 2; and behind the fixed part the byte 2. Nothing is asked of the extensions,
/// which are all that follows.
pub proof fn law_token_accounts_in_bytes(data: Seq<u8>)
    ensures
        ({
            let absent = seq![0u8, 0, 0, 0];
            let present = seq![1u8, 0, 0, 0];
            let reads = {
                &&& data.len() >= 165 && data.len() != 355
                &&& data.subrange(72, 76) == absent || data.subrange(72, 76) == present
                &&& data.subrange(109, 113) == absent || data.subrange(109, 113) == present
                &&& data.subrange(129, 133) == absent || data.subrange(129, 133) == present
                &&& data[108] == 0 || data[108] == 1 || data[108] == 2
            };
            let marked = data.len() == 165 || data.len() >= 167 && data[165] == 2;
            &&& token_account_extensions(data) is Ok <==> reads && data[108] != 0 && marked
            &&& token_account_extensions(data) == Err::<Seq<u8>, InstructionError>(
                InstructionError::UninitializedAccount,
            ) <==> reads && data[108] == 0
            &&& token_account_extensions(data) == Err::<Seq<u8>, InstructionError>(
                InstructionError::InvalidAccountData,
            ) <==> !reads || data[108] != 0 && !marked
            &&& token_account_extensions(data) matches Ok(extensions) ==> extensions
                == if data.len() == 165 {
                Seq::<u8>::empty()
            } else {
                data.subrange(166, data.len() as int)
            }
        }),
{
    if data.len() > 166 {
        assert(data.skip(166) =~= data.subrange(166, data.len() as int));
    }
}

/// The hook's extension, where the search comes to it, gives its flag: its value
/// is one byte, and whatever stands behind it does not count.
pub proof fn law_hook_extension_gives_the_flag(flag: u8, rest: Seq<u8>)
    ensures
        transferring_flag(seq![15u8, 0, 1, 0, flag] + rest) == Some(flag != 0),
{
    let extensions = seq![15u8, 0, 1, 0, flag] + rest;
    assert(extensions[0] == 15 && extensions[1] == 0 && extensions[2] == 1 && extensions[3] == 0);
    assert(extensions[4] == flag);
}

/// The order of extensions does not count: behind any other extension that a
/// token account can carry, whatever its value, the flag is what it would be
/// without it.
pub proof fn law_other_extensions_are_passed_over(
    kind: u8,
    low: u8,
    high: u8,
    value: Seq<u8>,
    rest: Seq<u8>,
)
    requires
        kind == 2 || kind == 5 || kind == 7 || kind == 8 || kind == 11 || kind == 13 || kind == 17,
        value.len() == low + 256 * high,
    ensures
        transferring_flag(seq![kind, 0, low, high] + value + rest) == transferring_flag(rest),
{
    let extensions = seq![kind, 0, low, high] + value + rest;
    assert(extensions[0] == kind && extensions[1] == 0);
    assert(extensions[2] == low && extensions[3] == high);
    if rest.len() > 0 {
        assert(extensions.skip(4 + value.len() as int) =~= rest);
    }
}

/// Extensions as they are stored: type, length, value, one after the other.
pub open spec fn extension_bytes(entries: Seq<(u8, Seq<u8>)>) -> Seq<u8>
    decreases entries.len(),
{
    if entries.len() == 0 {
        Seq::empty()
    } else {
        let (kind, value) = entries[0];
        seq![kind, 0u8, (value.len() % 256) as u8, (value.len() / 256) as u8] + value
            + extension_bytes(entries.drop_first())
    }
}

/// Whether a token account can carry these extensions beside the hook's.
pub open spec fn are_other_extensions(entries: Seq<(u8, Seq<u8>)>) -> bool {
    forall|i: int|
        #![trigger entries[i]]
        0 <= i < entries.len() ==> {
            let kind = entries[i].0;
            &&& kind == 2 || kind == 5 || kind == 7 || kind == 8 || kind == 11 || kind == 13 || kind
                == 17
            &&& entries[i].1.len() <= 0xffff
        }
}

/// The flag is found wherever the hook's extension stands: behind any number of
/// others, in any order and with any values, and before anything.
pub proof fn law_flag_is_found_anywhere(
    entries: Seq<(u8, Seq<u8>)>,
    flag: u8,
    behind: Seq<u8>,
)
    requires
        are_other_extensions(entries),
    ensures
        transferring_flag(extension_bytes(entries) + seq![15u8, 0, 1, 0, flag] + behind) == Some(
            flag != 0,
        ),
    decreases entries.len(),
{
    let hook = seq![15u8, 0, 1, 0, flag] + behind;
    let all = extension_bytes(entries) + seq![15u8, 0, 1, 0, flag] + behind;
    if entries.len() == 0 {
        law_hook_extension_gives_the_flag(flag, behind);
        assert(all =~= hook);
    } else {
        let (kind, value) = entries[0];
        let low = (value.len() % 256) as u8;
        let high = (value.len() / 256) as u8;
        let others = entries.drop_first();
        let rest = extension_bytes(others) + seq![15u8, 0, 1, 0, flag] + behind;
        assert forall|i: int| #![trigger others[i]] 0 <= i < others.len() implies {
            let kind = others[i].0;
            &&& kind == 2 || kind == 5 || kind == 7 || kind == 8 || kind == 11 || kind == 13 || kind
                == 17
            &&& others[i].1.len() <= 0xffff
        } by {
            assert(others[i] == entries[i + 1]);
        }
        law_flag_is_found_anywhere(others, flag, behind);
        law_other_extensions_are_passed_over(kind, low, high, value, rest);
        assert(all =~= seq![kind, 0, low, high] + value + rest);
    }
}

/// Where the search finds no flag: too few bytes for a type and a length, a type
/// that no token account carries, a hook's extension that is not one byte long
/// or cut off, or another extension that takes up all the bytes.
pub proof fn law_where_no_flag_is_found(extensions: Seq<u8>)
    ensures
        extensions.len() < 4 ==> transferring_flag(extensions) is None,
        extensions.len() >= 4 ==> {
            let kind = extensions[0] + 256 * extensions[1];
            let length = extensions[2] + 256 * extensions[3];
            let passed = kind == 2 || kind == 5 || kind == 7 || kind == 8 || kind == 11 || kind
                == 13 || kind == 17;
            &&& kind != 15 && !passed ==> transferring_flag(extensions) is None
            &&& kind == 15 && (length != 1 || extensions.len() < 5) ==> transferring_flag(
                extensions,
            ) is None
            &&& passed && 4 + length >= extensions.len() ==> transferring_flag(extensions) is None
        },
{
}

/// The flag of an account is that of its extensions, and an account that is no
/// token account has none. Set, it lets the hook run; not set, the hook is not
/// in a transfer; missing, it cannot be told.
pub proof fn law_flag_decides(data: Seq<u8>, flag: Option<bool>)
    ensures
        token_account_extensions(data) matches Ok(extensions) ==> hook_flag(data)
            == transferring_flag(extensions),
        token_account_extensions(data) is Err ==> hook_flag(data) is None,
        transferring_verdict(Some(true)) == Ok::<(), TransferHookError>(()),
        transferring_verdict(Some(false)) == Err::<(), TransferHookError>(
            TransferHookError::NotTransferring,
        ),
        transferring_verdict(None) == Err::<(), TransferHookError>(
            TransferHookError::MetaResolution,
        ),
        transferring_verdict(flag) is Ok <==> flag == Some(true),
{
}

// Account checks.

/// The check of a transfer's accounts succeeds exactly where the source is a
/// token account, whatever its extensions, the list account is at the address
/// derived from the mint, and the rate-limit account at the one derived from
/// the mint and the sender, whatever the bumps; it then gives the latter's. What
/// is wrong first is reported.
pub proof fn law_transfer_accounts_are_taken(accounts: TransferHook, program_id: Seq<u8>)
    ensures
        ({
            let source = token_account_extensions(accounts.source_token.data@);
            let list = program_address(
                seq![EXTRA_ACCOUNT_METAS_SEED@, accounts.mint@],
                program_id,
            );
            let limit = program_address(
                seq![RATE_LIMIT_SEED@, accounts.mint@, accounts.owner@],
                program_id,
            );
            let verdict = accounts.verdict(program_id);
            match source {
                Err(error) => verdict == Some(Err::<u8, InstructionError>(error)),
                Ok(_) => match list {
                    None => verdict is None,
                    Some((list_address, _)) => if list_address
                        != accounts.extra_account_meta_list@ {
                        verdict == Some(
                            Err::<u8, InstructionError>(InstructionError::ConstraintSeeds),
                        )
                    } else {
                        match limit {
                            None => verdict is None,
                            Some((address, bump)) => verdict == Some(
                                if address == accounts.rate_limit.key@ {
                                    Ok::<u8, InstructionError>(bump)
                                } else {
                                    Err::<u8, InstructionError>(InstructionError::ConstraintSeeds)
                                },
                            ),
                        }
                    },
                },
            }
        }),
{
}

/// A registration's accounts are taken exactly where the system program is the
/// system program and the rate-limit account is at the address derived from the
/// mint and the wallet, whatever its bump.
pub proof fn law_registration_accounts_are_taken(accounts: InitializeRateLimit, program_id: Seq<u8>)
    ensures
        ({
            let limit = program_address(
                seq![RATE_LIMIT_SEED@, accounts.mint@, accounts.owner@],
                program_id,
            );
            let verdict = accounts.verdict(program_id);
            &&& accounts.system_program@ != SYSTEM_PROGRAM_ID@ ==> verdict == Some(
                Err::<u8, InstructionError>(InstructionError::InvalidProgramId),
            )
            &&& accounts.system_program@ == SYSTEM_PROGRAM_ID@ ==> match limit {
                None => verdict is None,
                Some((address, bump)) => verdict == Some(
                    if address == accounts.rate_limit.key@ {
                        Ok::<u8, InstructionError>(bump)
                    } else {
                        Err::<u8, InstructionError>(InstructionError::ConstraintSeeds)
                    },
                ),
            }
        }),
{
}

/// The accounts for a list are taken exactly where the system program is the
/// system program and the list account is at the address derived from the mint,
/// whatever its bump.
pub proof fn law_list_accounts_are_taken(
    accounts: InitializeExtraAccountMetaList,
    program_id: Seq<u8>,
)
    ensures
        ({
            let list = program_address(
                seq![EXTRA_ACCOUNT_METAS_SEED@, accounts.mint@],
                program_id,
            );
            let verdict = accounts.verdict(program_id);
            &&& accounts.system_program@ != SYSTEM_PROGRAM_ID@ ==> verdict == Some(
                Err::<u8, InstructionError>(InstructionError::InvalidProgramId),
            )
            &&& accounts.system_program@ == SYSTEM_PROGRAM_ID@ ==> match list {
                None => verdict is None,
                Some((address, bump)) => verdict == Some(
                    if address == accounts.extra_account_meta_list@ {
                        Ok::<u8, InstructionError>(bump)
                    } else {
                        Err::<u8, InstructionError>(InstructionError::ConstraintSeeds)
                    },
                ),
            }
        }),
{
}

// Registering a wallet.

/// Any wallet can be registered: with the address derived from the mint and the
/// wallet, whatever its bump, the system program, and an account that is not in
/// use, an empty window opens at `now`. An account in use is refused.
pub proof fn law_any_wallet_can_be_registered(
    accounts: InitializeRateLimit,
    program_id: Seq<u8>,
    bump: u8,
    now: i64,
)
    requires
        accounts.system_program@ == Seq::new(32, |i: int| 0u8),
        program_address(seq![RATE_LIMIT_SEED@, accounts.mint@, accounts.owner@], program_id)
            == Some((accounts.rate_limit.key@, bump)),
    ensures
        accounts.verdict(program_id) == Some(Ok::<u8, InstructionError>(bump)),
        registered(program_id, accounts, false, now) == Some(
            Ok::<RateLimit, InstructionError>(RateLimit { window_start: now, window_total: 0 }),
        ),
        registered(program_id, accounts, true, now) == Some(
            Err::<RateLimit, InstructionError>(InstructionError::AccountAlreadyInUse),
        ),
{
    law_loading_goes_by_owner(Seq::empty(), 0, Seq::empty(), program_id);
}

/// No other registration succeeds: not with another program in the place of the
/// system's, not at another address, not where no address is derived, not where
/// the account is in use.
pub proof fn law_no_other_registration_succeeds(
    accounts: InitializeRateLimit,
    program_id: Seq<u8>,
    in_use: bool,
    now: i64,
)
    ensures
        ({
            let limit = program_address(
                seq![RATE_LIMIT_SEED@, accounts.mint@, accounts.owner@],
                program_id,
            );
            let outcome = registered(program_id, accounts, in_use, now);
            &&& accounts.system_program@ != Seq::new(32, |i: int| 0u8) ==> outcome == Some(
                Err::<RateLimit, InstructionError>(InstructionError::InvalidProgramId),
            )
            &&& accounts.system_program@ == Seq::new(32, |i: int| 0u8) ==> {
                &&& limit is None ==> outcome is None
                &&& (limit matches Some((address, _)) && address != accounts.rate_limit.key@)
                    ==> outcome == Some(
                    Err::<RateLimit, InstructionError>(InstructionError::ConstraintSeeds),
                )
            }
            &&& outcome matches Some(Ok(state)) ==> !in_use && state.window_start == now
                && state.window_total == 0
        }),
{
    law_loading_goes_by_owner(Seq::empty(), 0, Seq::empty(), program_id);
}

// Making a mint's list.

/// Any mint can be given its list, whatever the bump of the list's address; an
/// account in use is refused.
pub proof fn law_any_mint_can_have_its_list(
    accounts: InitializeExtraAccountMetaList,
    program_id: Seq<u8>,
    bump: u8,
)
    requires
        accounts.system_program@ == Seq::new(32, |i: int| 0u8),
        program_address(seq![EXTRA_ACCOUNT_METAS_SEED@, accounts.mint@], program_id) == Some(
            (accounts.extra_account_meta_list@, bump),
        ),
    ensures
        accounts.verdict(program_id) == Some(Ok::<u8, InstructionError>(bump)),
        list_verdict(program_id, accounts, false) == Some(Ok::<u8, InstructionError>(bump)),
        list_verdict(program_id, accounts, true) == Some(
            Err::<u8, InstructionError>(InstructionError::AccountAlreadyInUse),
        ),
{
    law_loading_goes_by_owner(Seq::empty(), 0, Seq::empty(), program_id);
}

/// No other list is made, and what is wrong first is reported.
pub proof fn law_no_other_list_is_made(
    accounts: InitializeExtraAccountMetaList,
    program_id: Seq<u8>,
    in_use: bool,
)
    ensures
        ({
            let list = program_address(
                seq![EXTRA_ACCOUNT_METAS_SEED@, accounts.mint@],
                program_id,
            );
            let outcome = list_verdict(program_id, accounts, in_use);
            &&& accounts.system_program@ != Seq::new(32, |i: int| 0u8) ==> outcome == Some(
                Err::<u8, InstructionError>(InstructionError::InvalidProgramId),
            )
            &&& accounts.system_program@ == Seq::new(32, |i: int| 0u8) ==> {
                &&& list is None ==> outcome is None
                &&& (list matches Some((address, _)) && address
                    != accounts.extra_account_meta_list@) ==> outcome == Some(
                    Err::<u8, InstructionError>(InstructionError::ConstraintSeeds),
                )
            }
            &&& outcome matches Some(Ok(bump)) ==> !in_use && list == Some(
                (accounts.extra_account_meta_list@, bump),
            )
        }),
{
    law_loading_goes_by_owner(Seq::empty(), 0, Seq::empty(), program_id);
}

/// A plan signs for the account that it creates: its list account is the address
/// that the derivation finds for its mint, and the seeds that it signs with are
/// the seeds of that address, followed by the bump that the derivation found.
pub proof fn law_plan_signs_for_its_account(
    accounts: InitializeExtraAccountMetaList,
    program_id: Seq<u8>,
    in_use: bool,
    bump: u8,
    plan: MetaListPlan,
)
    requires
        list_verdict(program_id, accounts, in_use) == Some(Ok::<u8, InstructionError>(bump)),
        is_plan_for(plan, accounts, program_id, bump),
    ensures
        program_address(seq![EXTRA_ACCOUNT_METAS_SEED@, plan.mint@], program_id) == Some(
            (plan.extra_account_meta_list@, plan.bump),
        ),
        list_signer_seeds(plan.mint@, plan.bump) == seq![
            EXTRA_ACCOUNT_METAS_SEED@,
            plan.mint@,
            seq![plan.bump],
        ],
        plan.payer == accounts.payer,
        plan.mint == accounts.mint,
        plan.extra_account_meta_list == accounts.extra_account_meta_list,
        plan.program_id@ == program_id,
{
}

/// A plan is for the accounts that it was made for, and for one entry in 51
/// bytes. The entry holds packed seeds: the ten
/// bytes of "rate-limit", the key of account 1 and the key of account 3, padded
/// with zeros; the account is written and does not sign.
pub proof fn law_plan_in_bytes(
    plan: MetaListPlan,
    accounts: InitializeExtraAccountMetaList,
    program_id: Seq<u8>,
    bump: u8,
)
    requires
        is_plan_for(plan, accounts, program_id, bump),
    ensures
        plan.payer == accounts.payer,
        plan.extra_account_meta_list == accounts.extra_account_meta_list,
        plan.mint == accounts.mint,
        plan.program_id@ == program_id,
        plan.bump == bump,
        plan.account_size == 51,
        plan.account_metas@.len() == 1,
        plan.account_metas@[0].discriminator == 1,
        plan.account_metas@[0].address_config@ == seq![
            1u8, 10, 114, 97, 116, 101, 45, 108, 105, 109, 105, 116, 3, 1, 3, 3, 0, 0, 0, 0, 0, 0,
            0, 0, 0, 0, 0, 0, 0, 0, 0, 0,
        ],
        plan.account_metas@[0].is_signer == false,
        plan.account_metas@[0].is_writable == true,
{
    lemma_hook_seeds_packed();
    assert(plan.account_metas@[0].address_config@ =~= seq![
        1u8, 10, 114, 97, 116, 101, 45, 108, 105, 109, 105, 116, 3, 1, 3, 3, 0, 0, 0, 0, 0, 0, 0, 0,
        0, 0, 0, 0, 0, 0, 0, 0,
    ]);
}

/// Entries stand one behind the other, 35 bytes each.
proof fn lemma_entries_stand_in_line(metas: Seq<ExtraAccountMeta>, i: int)
    ensures
        stored_metas(metas).len() == 35 * metas.len(),
        0 <= i < metas.len() ==> stored_metas(metas).subrange(35 * i, 35 * i + 35) == stored_meta(
            metas[i],
        ),
    decreases metas.len(),
{
    if metas.len() > 0 {
        let first = stored_meta(metas[0]);
        let rest = stored_metas(metas.drop_first());
        lemma_entries_stand_in_line(metas.drop_first(), i - 1);
        assert(first.len() == 35);
        if 0 < i < metas.len() {
            assert(stored_metas(metas).subrange(35 * i, 35 * i + 35) =~= rest.subrange(
                35 * (i - 1),
                35 * (i - 1) + 35,
            ));
            assert(metas.drop_first()[i - 1] == metas[i]);
        } else if i == 0 {
            assert(stored_metas(metas).subrange(0, 35) =~= first);
        }
    }
}

/// A list of any number of entries is written exactly where there is room for 16
/// bytes and 35 for each entry. It opens with the tag of `Execute`, then four
/// bytes that weigh the length of what follows, then four that weigh the number
/// of entries; entry `i` stands at 16 + 35 * i: what it holds, 32 bytes of
/// address, whether it signs, whether it is written. What is left over stays
/// zero.
pub proof fn law_lists_in_bytes(
    before: Seq<u8>,
    metas: Seq<ExtraAccountMeta>,
    after: Seq<u8>,
    success: bool,
    i: int,
)
    requires
        35 * metas.len() + 4 <= 0xffff_ffff,
        forall|k: int| 0 <= k < before.len() ==> #[trigger] before[k] == 0,
        list_written(before, metas, after, success),
    ensures
        success <==> before.len() >= 16 + 35 * metas.len(),
        after.len() == before.len(),
        before.len() >= 12 ==> {
            &&& after.take(8) == seq![105u8, 37, 101, 197, 75, 251, 102, 26]
            &&& 35 * metas.len() + 4 == after[8] + 0x100 * after[9] + 0x1_0000 * after[10]
                + 0x100_0000 * after[11]
        },
        before.len() < 12 ==> after == before,
        success ==> {
            &&& metas.len() == after[12] + 0x100 * after[13] + 0x1_0000 * after[14] + 0x100_0000
                * after[15]
            &&& 0 <= i < metas.len() ==> {
                &&& after[16 + 35 * i] == metas[i].discriminator
                &&& after.subrange(17 + 35 * i, 49 + 35 * i) == metas[i].address_config@
                &&& after[49 + 35 * i] == if metas[i].is_signer {
                    1u8
                } else {
                    0u8
                }
                &&& after[50 + 35 * i] == if metas[i].is_writable {
                    1u8
                } else {
                    0u8
                }
            }
            &&& 16 + 35 * metas.len() <= i < after.len() ==> after[i] == 0
        },
        !success && 12 <= i < after.len() ==> after[i] == 0,
{
    let length = (35 * metas.len() + 4) as u32;
    law_written_bytes_weigh_the_number(0, length);
    law_written_bytes_weigh_the_number(0, metas.len() as u32);
    lemma_entries_stand_in_line(metas, i);
    assert(EXECUTE_TAG@ =~= seq![105u8, 37, 101, 197, 75, 251, 102, 26]);
    if before.len() >= 12 {
        assert(after.take(8) =~= EXECUTE_TAG@);
        let weigh = le_bytes(length as nat, 4);
        assert(after[8] == weigh[0] && after[9] == weigh[1]);
        assert(after[10] == weigh[2] && after[11] == weigh[3]);
    }
    if success {
        let count = le_bytes(metas.len(), 4);
        assert(after[12] == count[0] && after[13] == count[1]);
        assert(after[14] == count[2] && after[15] == count[3]);
        if 0 <= i < metas.len() {
            let entry = stored_metas(metas).subrange(35 * i, 35 * i + 35);
            assert(forall|k: int|
                0 <= k < 35 ==> #[trigger] entry[k] == stored_metas(metas)[35 * i + k]);
            assert(35 * i + 35 <= 35 * metas.len());
            assert(after.subrange(16 + 35 * i, 16 + 35 * i + 35) =~= entry);
            let got = after.subrange(16 + 35 * i, 16 + 35 * i + 35);
            assert(got[0] == after[16 + 35 * i]);
            assert(got[33] == after[49 + 35 * i]);
            assert(got[34] == after[50 + 35 * i]);
            assert(entry.subrange(1, 33) =~= metas[i].address_config@);
            assert(after.subrange(17 + 35 * i, 49 + 35 * i) =~= got.subrange(1, 33));
        }
    }
}

/// The instruction that creates an account names the system program, the payer
/// and the new account, both of which sign and are written, and holds 52 bytes:
/// four zeros, eight that weigh the lamports, eight that weigh the space, and
/// the owner.
pub proof fn law_creation_in_bytes(
    instruction: Instruction,
    from: Seq<u8>,
    to: Seq<u8>,
    lamports: u64,
    space: u64,
    owner: Seq<u8>,
)
    requires
        owner.len() == 32,
        creates_account(instruction, from, to, lamports, space, owner),
    ensures
        instruction.program_id@ == Seq::new(32, |i: int| 0u8),
        instruction.accounts@.len() == 2,
        instruction.accounts@[0].pubkey@ == from,
        instruction.accounts@[1].pubkey@ == to,
        instruction.accounts@[0].is_signer && instruction.accounts@[0].is_writable,
        instruction.accounts@[1].is_signer && instruction.accounts@[1].is_writable,
        ({
            let d = instruction.data@;
            &&& d.len() == 52
            &&& d.take(4) == seq![0u8, 0, 0, 0]
            &&& lamports == d[4] + 0x100 * d[5] + 0x1_0000 * d[6] + 0x100_0000 * d[7]
                + 0x1_0000_0000 * d[8] + 0x100_0000_0000 * d[9] + 0x1_0000_0000_0000 * d[10]
                + 0x100_0000_0000_0000 * d[11]
            &&& space == d[12] + 0x100 * d[13] + 0x1_0000 * d[14] + 0x100_0000 * d[15]
                + 0x1_0000_0000 * d[16] + 0x100_0000_0000 * d[17] + 0x1_0000_0000_0000 * d[18]
                + 0x100_0000_0000_0000 * d[19]
            &&& d.subrange(20, 52) == owner
        }),
{
    let d = instruction.data@;
    law_loading_goes_by_owner(Seq::empty(), 0, Seq::empty(), owner);
    law_written_bytes_weigh_the_number(lamports, 0);
    law_written_bytes_weigh_the_number(space, 0);
    let zero = le_bytes(0, 4);
    assert(zero =~= seq![0u8, 0, 0, 0]) by {
        reveal_with_fuel(le_bytes, 5);
    }
    assert(d.take(4) =~= zero);
    let a = le_bytes(lamports as nat, 8);
    let b = le_bytes(space as nat, 8);
    assert(d[4] == a[0] && d[5] == a[1] && d[6] == a[2] && d[7] == a[3]);
    assert(d[8] == a[4] && d[9] == a[5] && d[10] == a[6] && d[11] == a[7]);
    assert(d[12] == b[0] && d[13] == b[1] && d[14] == b[2] && d[15] == b[3]);
    assert(d[16] == b[4] && d[17] == b[5] && d[18] == b[6] && d[19] == b[7]);
    assert(d.subrange(20, 52) =~= owner);
}

// Routing.

/// Data is routed to the hook exactly where it opens with the eight bytes of
/// `Execute` and eight more, which are handed on as they are; what follows does
/// not count.
pub proof fn law_execute_is_routed(data: Seq<u8>)
    ensures
        routed(data) is Ok <==> data.len() >= 16 && data.take(8) == seq![
            105u8, 37, 101, 197, 75, 251, 102, 26,
        ],
        routed(data) matches Ok(arguments) ==> arguments == data.subrange(8, 16),
{
    assert(EXECUTE_TAG@ =~= seq![105u8, 37, 101, 197, 75, 251, 102, 26]);
    if data.len() >= 16 {
        let arguments = data.subrange(8, 16);
        lemma_le_capacity_of_u64();
        lemma_le_read_then_write(arguments);
        assert(le_value(arguments) as u64 as nat == le_value(arguments));
    }
}

/// Everything else is refused: the two list instructions of the interface, where
/// they carry a count and whole entries of 35 bytes, as not served, and anything
/// else as unreadable. The program aborts exactly on a list instruction whose
/// count is greater than the number of entries behind it.
pub proof fn law_other_data_is_refused(data: Seq<u8>)
    ensures
        ({
            let initialize = seq![43u8, 34, 13, 49, 167, 88, 235, 235];
            let update = seq![157u8, 105, 42, 146, 102, 85, 241, 174];
            let lists = data.len() >= 12 && (data.take(8) == initialize || data.take(8) == update)
                && (data.len() - 12) % 35 == 0;
            let executes = data.len() >= 16 && data.take(8) == seq![
                105u8, 37, 101, 197, 75, 251, 102, 26,
            ];
            let count = data[8] + 0x100 * data[9] + 0x1_0000 * data[10] + 0x100_0000 * data[11];
            &&& lists ==> routed(data) == Err::<Seq<u8>, InstructionError>(
                InstructionError::InvalidInstructionData,
            )
            &&& !lists && !executes ==> routed(data) == Err::<Seq<u8>, InstructionError>(
                InstructionError::Hook(TransferHookError::MetaResolution),
            )
            &&& overclaims(data) <==> lists && 35 * count > data.len() - 12
        }),
{
    law_execute_is_routed(data);
    assert(EXECUTE_TAG@ =~= seq![105u8, 37, 101, 197, 75, 251, 102, 26]);
    assert(INITIALIZE_TAG@ =~= seq![43u8, 34, 13, 49, 167, 88, 235, 235]);
    assert(UPDATE_TAG@ =~= seq![157u8, 105, 42, 146, 102, 85, 241, 174]);
    assert(EXECUTE_TAG@[0] != INITIALIZE_TAG@[0]);
    assert(EXECUTE_TAG@[0] != UPDATE_TAG@[0]);
    if data.len() >= 12 {
        let count = data.subrange(8, 12);
        law_bytes_weigh_by_place(count);
        assert(count[0] == data[8] && count[1] == data[9]);
        assert(count[2] == data[10] && count[3] == data[11]);
    }
}

// The hook.

/// What the hook answers a genuine transfer with checked accounts, in numbers:
/// the amount is what the first eight argument bytes weigh. It aborts only where
/// the age of the window is no signed 64-bit number.
pub proof fn law_hook_in_numbers(
    program_id: Seq<u8>,
    accounts: TransferHook,
    arguments: Seq<u8>,
    now: i64,
    bump: u8,
)
    requires
        accounts.verdict(program_id) == Some(Ok::<u8, InstructionError>(bump)),
        hook_flag(accounts.source_token.data@) == Some(true),
        arguments.len() >= 8,
    ensures
        ({
            let a = arguments;
            let amount = a[0] + 0x100 * a[1] + 0x1_0000 * a[2] + 0x100_0000 * a[3] + 0x1_0000_0000
                * a[4] + 0x100_0000_0000 * a[5] + 0x1_0000_0000_0000 * a[6] + 0x100_0000_0000_0000
                * a[7];
            let start = accounts.rate_limit.state.window_start;
            let total = accounts.rate_limit.state.window_total;
            let age = now - start;
            let outcome = processed(program_id, accounts, arguments, now);
            &&& outcome is None <==> !(-0x8000_0000_0000_0000 <= age <= 0x7fff_ffff_ffff_ffff)
            &&& start >= 0 && now >= 0 ==> outcome is Some
            &&& 86_400 <= age <= 0x7fff_ffff_ffff_ffff && amount <= 500_000 ==> outcome == Some(
                Ok::<RateLimit, InstructionError>(
                    RateLimit { window_start: now, window_total: amount as u64 },
                ),
            )
            &&& 86_400 <= age <= 0x7fff_ffff_ffff_ffff && amount > 500_000 ==> outcome == Some(
                Err::<RateLimit, InstructionError>(
                    InstructionError::Hook(TransferHookError::RateLimitExceeded),
                ),
            )
            &&& -0x8000_0000_0000_0000 <= age < 86_400 && total + amount <= 500_000 ==> outcome
                == Some(
                Ok::<RateLimit, InstructionError>(
                    RateLimit { window_start: start, window_total: (total + amount) as u64 },
                ),
            )
            &&& -0x8000_0000_0000_0000 <= age < 86_400 && 500_000 < total + amount
                <= 0xffff_ffff_ffff_ffff ==> outcome == Some(
                Err::<RateLimit, InstructionError>(
                    InstructionError::Hook(TransferHookError::RateLimitExceeded),
                ),
            )
            &&& -0x8000_0000_0000_0000 <= age < 86_400 && total + amount > 0xffff_ffff_ffff_ffff
                ==> outcome == Some(
                Err::<RateLimit, InstructionError>(
                    InstructionError::Hook(TransferHookError::Overflow),
                ),
            )
        }),
{
    let first = arguments.take(8);
    law_bytes_weigh_by_place(first);
    assert(first[0] == arguments[0] && first[1] == arguments[1] && first[2] == arguments[2]);
    assert(first[3] == arguments[3] && first[4] == arguments[4] && first[5] == arguments[5]);
    assert(first[6] == arguments[6] && first[7] == arguments[7]);
    lemma_le_capacity_of_u64();
    lemma_le_read_then_write(first);
}

/// What the hook answers otherwise: too few argument bytes first, then what is
/// wrong with the accounts, then a source that is not in a transfer or whose
/// flag cannot be told, whatever the amount and the clock.
pub proof fn law_hook_refusals(
    program_id: Seq<u8>,
    accounts: TransferHook,
    arguments: Seq<u8>,
    now: i64,
)
    ensures
        ({
            let outcome = processed(program_id, accounts, arguments, now);
            let flag = hook_flag(accounts.source_token.data@);
            &&& arguments.len() < 8 ==> outcome == Some(
                Err::<RateLimit, InstructionError>(InstructionError::InstructionDidNotDeserialize),
            )
            &&& arguments.len() >= 8 ==> match accounts.verdict(program_id) {
                None => outcome is None,
                Some(Err(error)) => outcome == Some(Err::<RateLimit, InstructionError>(error)),
                Some(Ok(_)) => {
                    &&& flag == Some(false) ==> outcome == Some(
                        Err::<RateLimit, InstructionError>(
                            InstructionError::Hook(TransferHookError::NotTransferring),
                        ),
                    )
                    &&& flag is None ==> outcome == Some(
                        Err::<RateLimit, InstructionError>(
                            InstructionError::Hook(TransferHookError::MetaResolution),
                        ),
                    )
                },
            }
        }),
{
}

/// A raw instruction comes to what the hook makes of the eight bytes behind the
/// tag of `Execute`, or to the refusal of its bytes, whatever the accounts.
pub proof fn law_raw_instructions(
    program_id: Seq<u8>,
    accounts: TransferHook,
    data: Seq<u8>,
    now: i64,
)
    ensures
        data.len() >= 16 && data.take(8) == seq![105u8, 37, 101, 197, 75, 251, 102, 26]
            ==> fallen_back(program_id, accounts, data, now) == processed(
            program_id,
            accounts,
            data.subrange(8, 16),
            now,
        ),
        overclaims(data) ==> fallen_back(program_id, accounts, data, now) is None,
        !overclaims(data) ==> (routed(data) matches Err(error) ==> fallen_back(
            program_id,
            accounts,
            data,
            now,
        ) == Some(Err::<RateLimit, InstructionError>(error))),
{
    law_execute_is_routed(data);
    law_other_data_is_refused(data);
    assert(seq![105u8, 37, 101, 197, 75, 251, 102, 26][0] != seq![
        43u8, 34, 13, 49, 167, 88, 235, 235,
    ][0]);
    assert(seq![105u8, 37, 101, 197, 75, 251, 102, 26][0] != seq![
        157u8, 105, 42, 146, 102, 85, 241, 174,
    ][0]);
}

/// A transfer goes through, from the bytes to the record: an `Execute`, with
/// anything behind it, of an amount that fits, at any times that are not
/// negative, from a token account that is initialized or frozen and carries any
/// other extensions in any order, with the list and the rate-limit account at
/// the derived addresses, whatever the bumps.
pub proof fn law_transfers_go_through(
    program_id: Seq<u8>,
    accounts: TransferHook,
    entries: Seq<(u8, Seq<u8>)>,
    flag: u8,
    behind: Seq<u8>,
    data: Seq<u8>,
    now: i64,
    list_bump: u8,
    bump: u8,
)
    requires
        ({
            let source = accounts.source_token.data@;
            let absent = seq![0u8, 0, 0, 0];
            let present = seq![1u8, 0, 0, 0];
            &&& 171 <= source.len() && source.len() != 355
            &&& source.subrange(72, 76) == absent || source.subrange(72, 76) == present
            &&& source.subrange(109, 113) == absent || source.subrange(109, 113) == present
            &&& source.subrange(129, 133) == absent || source.subrange(129, 133) == present
            &&& source[108] == 1 || source[108] == 2
            &&& source[165] == 2
            &&& source.subrange(166, source.len() as int) == extension_bytes(entries) + seq![
                15u8, 0, 1, 0, flag,
            ] + behind
        }),
        are_other_extensions(entries),
        flag != 0,
        program_address(seq![EXTRA_ACCOUNT_METAS_SEED@, accounts.mint@], program_id) == Some(
            (accounts.extra_account_meta_list@, list_bump),
        ),
        program_address(seq![RATE_LIMIT_SEED@, accounts.mint@, accounts.owner@], program_id)
            == Some((accounts.rate_limit.key@, bump)),
        data.len() >= 16,
        data.take(8) == seq![105u8, 37, 101, 197, 75, 251, 102, 26],
        accounts.rate_limit.state.window_start >= 0,
        now >= 0,
    ensures
        ({
            let d = data;
            let amount = d[8] + 0x100 * d[9] + 0x1_0000 * d[10] + 0x100_0000 * d[11]
                + 0x1_0000_0000 * d[12] + 0x100_0000_0000 * d[13] + 0x1_0000_0000_0000 * d[14]
                + 0x100_0000_0000_0000 * d[15];
            let start = accounts.rate_limit.state.window_start;
            let total = accounts.rate_limit.state.window_total;
            let outcome = fallen_back(program_id, accounts, data, now);
            &&& accounts.verdict(program_id) == Some(Ok::<u8, InstructionError>(bump))
            &&& outcome is Some
            &&& now - start >= 86_400 && amount <= 500_000 ==> outcome == Some(
                Ok::<RateLimit, InstructionError>(
                    RateLimit { window_start: now, window_total: amount as u64 },
                ),
            )
            &&& now - start < 86_400 && total + amount <= 500_000 ==> outcome == Some(
                Ok::<RateLimit, InstructionError>(
                    RateLimit { window_start: start, window_total: (total + amount) as u64 },
                ),
            )
        }),
{
    let source = accounts.source_token.data@;
    law_token_accounts_in_bytes(source);
    law_flag_decides(source, None);
    law_flag_is_found_anywhere(entries, flag, behind);
    law_transfer_accounts_are_taken(accounts, program_id);
    law_raw_instructions(program_id, accounts, data, now);
    let arguments = data.subrange(8, 16);
    law_hook_in_numbers(program_id, accounts, arguments, now, bump);
    assert(arguments[0] == data[8] && arguments[1] == data[9] && arguments[2] == data[10]);
    assert(arguments[3] == data[11] && arguments[4] == data[12] && arguments[5] == data[13]);
    assert(arguments[6] == data[14] && arguments[7] == data[15]);
}

/// The accounts of a transfer are taken wherever the source is a token account,
/// with any bytes at all for extensions, and the other two are at the derived
/// addresses, whatever the bumps; that of the rate-limit account is given.
pub proof fn law_any_token_account_is_taken(
    program_id: Seq<u8>,
    accounts: TransferHook,
    list_bump: u8,
    bump: u8,
)
    requires
        ({
            let source = accounts.source_token.data@;
            let absent = seq![0u8, 0, 0, 0];
            let present = seq![1u8, 0, 0, 0];
            &&& source.len() >= 165 && source.len() != 355
            &&& source.subrange(72, 76) == absent || source.subrange(72, 76) == present
            &&& source.subrange(109, 113) == absent || source.subrange(109, 113) == present
            &&& source.subrange(129, 133) == absent || source.subrange(129, 133) == present
            &&& source[108] == 1 || source[108] == 2
            &&& source.len() == 165 || source.len() >= 167 && source[165] == 2
        }),
        program_address(seq![EXTRA_ACCOUNT_METAS_SEED@, accounts.mint@], program_id) == Some(
            (accounts.extra_account_meta_list@, list_bump),
        ),
        program_address(seq![RATE_LIMIT_SEED@, accounts.mint@, accounts.owner@], program_id)
            == Some((accounts.rate_limit.key@, bump)),
    ensures
        accounts.verdict(program_id) == Some(Ok::<u8, InstructionError>(bump)),
{
    law_token_accounts_in_bytes(accounts.source_token.data@);
}

/// What is reported is what happened: success and the sender's new window, and
/// nothing else changed, or the error, or the abort, and nothing changed at all.
pub proof fn law_reports_are_faithful(
    result: Option<Result<RateLimit, InstructionError>>,
    before: TransferHook,
    after: TransferHook,
    outcome: Option<Result<(), InstructionError>>,
)
    requires
        reports(result, before, after, outcome),
    ensures
        after.source_token == before.source_token,
        after.mint == before.mint,
        after.destination_token == before.destination_token,
        after.owner == before.owner,
        after.extra_account_meta_list == before.extra_account_meta_list,
        after.rate_limit.key == before.rate_limit.key,
        result is None <==> outcome is None,
        result matches Some(Ok(state)) ==> outcome == Some(Ok::<(), InstructionError>(()))
            && after.rate_limit.state == state,
        result matches Some(Err(error)) ==> outcome == Some(Err::<(), InstructionError>(error)),
        !(result matches Some(Ok(_))) ==> after.rate_limit.state == before.rate_limit.state,
{
}

/// A new state changes the state and nothing else.
pub proof fn law_only_the_state_changes(accounts: TransferHook, state: RateLimit)
    ensures
        with_state(accounts, state) == (TransferHook {
            source_token: accounts.source_token,
            mint: accounts.mint,
            destination_token: accounts.destination_token,
            owner: accounts.owner,
            extra_account_meta_list: accounts.extra_account_meta_list,
            rate_limit: RateLimitAccount { key: accounts.rate_limit.key, state },
        }),
{
}

/// The handler charges the amount where the source is in a transfer, and only
/// there.
pub proof fn law_handler_charges_in_a_transfer(accounts: TransferHook, now: i64, amount: u64)
    ensures
        ({
            let outcome = hook_outcome(accounts, now, amount);
            match hook_flag(accounts.source_token.data@) {
                Some(true) => outcome == charged(accounts.rate_limit.state, now, amount),
                Some(false) => outcome == Err::<RateLimit, TransferHookError>(
                    TransferHookError::NotTransferring,
                ),
                None => outcome == Err::<RateLimit, TransferHookError>(
                    TransferHookError::MetaResolution,
                ),
            }
        }),
{
}

/// Errors are numbered from 0 in the order in which they are declared, and each
/// has a text of its own.
pub proof fn law_errors_are_told_apart()
    ensures
        position_of(TransferHookError::NotTransferring) == 0,
        position_of(TransferHookError::RateLimitExceeded) == 1,
        position_of(TransferHookError::Overflow) == 2,
        position_of(TransferHookError::MetaResolution) == 3,
        message_of(TransferHookError::NotTransferring)
            == "Hook can only be invoked from a real transfer"@,
        message_of(TransferHookError::RateLimitExceeded)
            == "Transfer exceeds the rate limit for this window"@,
        message_of(TransferHookError::Overflow) == "Arithmetic overflow"@,
        message_of(TransferHookError::MetaResolution)
            == "Failed to resolve or read extra-account metadata"@,
{
}

} // verus!
