//! What holds of the rule, the stored formats and the routing.

use vstd::prelude::*;

use crate::accounts::TransferHook;
use crate::error::{AccountDataError, InstructionError, TransferHookError};
use crate::extra_metas::{
    hook_seeds, lemma_hook_seeds_packed, list_written, stored_list, stored_metas, zeros, SeedView,
};
use crate::instruction::{routed, EXECUTE_TAG, INITIALIZE_TAG, UPDATE_TAG};
use crate::le::{
    i64_pattern, le_bytes, lemma_le_capacity_of_u64, lemma_le_read_then_write,
    lemma_le_write_then_read,
};
use crate::pda::{
    extra_account_metas_seeds, rate_limit_seeds, EXTRA_ACCOUNT_METAS_SEED, RATE_LIMIT_SEED,
};
use crate::program::{fallen_back, hook_outcome, list_signer_seeds, MetaListPlan};
use crate::rate_limit::{
    age_fits, charged, read_state, stored, window_is_over, RateLimit, LIMIT_PER_WINDOW,
    RATE_LIMIT_DISCRIMINATOR, RATE_LIMIT_SPACE, WINDOW_SECONDS,
};
use crate::token_account::{
    hook_flag, token_account_extensions, transferring_flag, transferring_verdict, EXTENSIONS_START,
};

verus! {

/// One attempt of a wallet to move tokens.
pub struct Charge {
    pub now: i64,
    pub amount: u64,
}

/// A wallet's window after one attempt; a refused one changes nothing.
pub open spec fn after_one(state: RateLimit, charge: Charge) -> RateLimit {
    match charged(state, charge.now, charge.amount) {
        Ok(next) => next,
        Err(_) => state,
    }
}

/// What one attempt moves: its amount, or nothing where it is refused.
pub open spec fn moved_by_one(state: RateLimit, charge: Charge) -> nat {
    if charged(state, charge.now, charge.amount) is Ok {
        charge.amount as nat
    } else {
        0
    }
}

/// A wallet's window after a series of attempts.
pub open spec fn after_all(state: RateLimit, charges: Seq<Charge>) -> RateLimit
    decreases charges.len(),
{
    if charges.len() == 0 {
        state
    } else {
        after_all(after_one(state, charges[0]), charges.drop_first())
    }
}

/// What a series of attempts moves.
pub open spec fn moved(state: RateLimit, charges: Seq<Charge>) -> nat
    decreases charges.len(),
{
    if charges.len() == 0 {
        0
    } else {
        moved_by_one(state, charges[0]) + moved(
            after_one(state, charges[0]),
            charges.drop_first(),
        )
    }
}

/// What a series of attempts moves in the window that opened at `start`.
pub open spec fn moved_in_window(state: RateLimit, charges: Seq<Charge>, start: i64) -> nat
    decreases charges.len(),
{
    if charges.len() == 0 {
        0
    } else {
        let next = after_one(state, charges[0]);
        let first = if next.window_start == start {
            moved_by_one(state, charges[0])
        } else {
            0
        };
        first + moved_in_window(next, charges.drop_first(), start)
    }
}

/// No series of attempts takes a wallet's recorded total over the limit.
pub proof fn law_total_stays_within_limit(state: RateLimit, charges: Seq<Charge>)
    requires
        state.wf(),
    ensures
        after_all(state, charges).wf(),
    decreases charges.len(),
{
    if charges.len() > 0 {
        law_total_stays_within_limit(after_one(state, charges[0]), charges.drop_first());
    }
}

/// A window that has been left is never counted against again.
proof fn lemma_closed_window_gains_nothing(state: RateLimit, charges: Seq<Charge>, start: i64)
    requires
        start < state.window_start,
    ensures
        moved_in_window(state, charges, start) == 0,
    decreases charges.len(),
{
    if charges.len() > 0 {
        lemma_closed_window_gains_nothing(
            after_one(state, charges[0]),
            charges.drop_first(),
            start,
        );
    }
}

/// In any one window a wallet moves at most the limit: whatever it attempts,
/// and whenever, what goes through in the window that opened at `start`, with
/// what that window had recorded before, is no more than `LIMIT_PER_WINDOW`.
pub proof fn law_each_window_is_capped(state: RateLimit, charges: Seq<Charge>, start: i64)
    requires
        state.wf(),
    ensures
        moved_in_window(state, charges, start) + if state.window_start == start {
            state.window_total as int
        } else {
            0
        } <= LIMIT_PER_WINDOW,
    decreases charges.len(),
{
    if charges.len() > 0 {
        let next = after_one(state, charges[0]);
        law_each_window_is_capped(next, charges.drop_first(), start);
        if start < next.window_start {
            lemma_closed_window_gains_nothing(next, charges.drop_first(), start);
        }
    }
}

/// Until the current window is over, every token moved is recorded in it, and
/// no other: the recorded total grows by exactly what goes through.
pub proof fn law_window_records_what_moves(state: RateLimit, charges: Seq<Charge>)
    requires
        forall|i: int|
            0 <= i < charges.len() ==> !window_is_over(state, (#[trigger] charges[i]).now),
    ensures
        after_all(state, charges).window_start == state.window_start,
        after_all(state, charges).window_total == state.window_total + moved(state, charges),
    decreases charges.len(),
{
    if charges.len() > 0 {
        let rest = charges.drop_first();
        assert forall|i: int| 0 <= i < rest.len() implies !window_is_over(
            after_one(state, charges[0]),
            (#[trigger] rest[i]).now,
        ) by {
            assert(rest[i] == charges[i + 1]);
            assert(!window_is_over(state, charges[0].now));
        }
        assert(!window_is_over(state, charges[0].now));
        law_window_records_what_moves(after_one(state, charges[0]), rest);
    }
}

/// Windows only ever move forward.
proof fn lemma_windows_move_forward(state: RateLimit, charges: Seq<Charge>)
    ensures
        state.window_start <= after_all(state, charges).window_start,
    decreases charges.len(),
{
    if charges.len() > 0 {
        lemma_windows_move_forward(after_one(state, charges[0]), charges.drop_first());
    }
}

/// Across any number of resets, the recorded total is what has moved in the
/// window that it is recorded for, and, where that window was there from the
/// start, what it had recorded before.
pub proof fn law_total_is_what_its_window_moved(state: RateLimit, charges: Seq<Charge>)
    ensures
        ({
            let end = after_all(state, charges);
            end.window_total == moved_in_window(state, charges, end.window_start)
                + if end.window_start == state.window_start {
                state.window_total as int
            } else {
                0
            }
        }),
        state.window_total == 0 ==> after_all(state, charges).window_total == moved_in_window(
            state,
            charges,
            after_all(state, charges).window_start,
        ),
    decreases charges.len(),
{
    if charges.len() > 0 {
        let next = after_one(state, charges[0]);
        law_total_is_what_its_window_moved(next, charges.drop_first());
        lemma_windows_move_forward(next, charges.drop_first());
    }
}

/// In any period shorter than a window a wallet moves at most what its current
/// window leaves over and one full limit more.
pub proof fn law_any_period_is_capped(state: RateLimit, charges: Seq<Charge>, from: i64)
    requires
        state.wf(),
        forall|i: int|
            0 <= i < charges.len() ==> from <= (#[trigger] charges[i]).now < from + WINDOW_SECONDS,
    ensures
        moved(state, charges) <= 2 * LIMIT_PER_WINDOW - state.window_total,
    decreases charges.len(),
{
    if charges.len() > 0 {
        let first = charges[0];
        let next = after_one(state, first);
        let rest = charges.drop_first();
        assert(from <= first.now < from + WINDOW_SECONDS);
        assert forall|i: int| 0 <= i < rest.len() implies from <= (#[trigger] rest[i]).now < from
            + WINDOW_SECONDS by {
            assert(rest[i] == charges[i + 1]);
        }
        if charged(state, first.now, first.amount) is Ok && window_is_over(state, first.now) {
            assert forall|i: int| 0 <= i < rest.len() implies !window_is_over(
                next,
                (#[trigger] rest[i]).now,
            ) by {
                assert(from <= rest[i].now < from + WINDOW_SECONDS);
            }
            law_window_records_what_moves(next, rest);
            law_total_stays_within_limit(next, rest);
        } else {
            law_any_period_is_capped(next, rest, from);
        }
    }
}

/// Splitting a transfer gains nothing: two charges at one moment come to the
/// same as one charge of their sum.
pub proof fn law_splitting_gains_nothing(state: RateLimit, now: i64, first: u64, second: u64)
    requires
        first + second <= u64::MAX,
    ensures
        match charged(state, now, first) {
            Ok(next) => charged(next, now, second) == charged(state, now, (first + second) as u64),
            Err(_) => charged(state, now, (first + second) as u64) is Err,
        },
{
}

/// Whoever may move an amount may move any smaller one instead.
pub proof fn law_less_is_accepted(state: RateLimit, now: i64, amount: u64, less: u64)
    requires
        less <= amount,
        charged(state, now, amount) is Ok,
    ensures
        charged(state, now, less) is Ok,
{
}

/// Once a window is over, the wallet has its full limit again: exactly the
/// amounts up to the limit go through, and they open a new window.
pub proof fn law_new_window_grants_the_limit(state: RateLimit, now: i64, amount: u64)
    requires
        window_is_over(state, now),
    ensures
        charged(state, now, amount) is Ok <==> amount <= LIMIT_PER_WINDOW,
        charged(state, now, amount) matches Ok(next) ==> next == (RateLimit {
            window_start: now,
            window_total: amount,
        }),
{
}

/// A wallet that has moved its limit moves nothing more in the same window.
pub proof fn law_spent_window_refuses(state: RateLimit, now: i64, amount: u64)
    requires
        state.window_total == LIMIT_PER_WINDOW,
        !window_is_over(state, now),
        amount > 0,
    ensures
        charged(state, now, amount) == Err::<RateLimit, TransferHookError>(
            if amount > u64::MAX - LIMIT_PER_WINDOW {
                TransferHookError::Overflow
            } else {
                TransferHookError::RateLimitExceeded
            },
        ),
{
}

/// A stored state takes `RATE_LIMIT_SPACE` bytes, and no two states are stored
/// alike: what is read back is what was written.
pub proof fn law_stored_state_reads_back(written: RateLimit, read: RateLimit)
    ensures
        stored(written).len() == RATE_LIMIT_SPACE,
        stored(written) == stored(read) ==> written == read,
{
    lemma_le_capacity_of_u64();
    lemma_le_write_then_read(i64_pattern(written.window_start), 8);
    lemma_le_write_then_read(written.window_total as nat, 8);
    lemma_le_write_then_read(i64_pattern(read.window_start), 8);
    lemma_le_write_then_read(read.window_total as nat, 8);
    if stored(written) == stored(read) {
        assert(stored(written).subrange(8, 16) =~= le_bytes(i64_pattern(written.window_start), 8));
        assert(stored(read).subrange(8, 16) =~= le_bytes(i64_pattern(read.window_start), 8));
        assert(stored(written).subrange(16, 24) =~= le_bytes(written.window_total as nat, 8));
        assert(stored(read).subrange(16, 24) =~= le_bytes(read.window_total as nat, 8));
    }
}

/// Data reads as `state` exactly where it opens with the stored form of
/// `state`.
pub proof fn law_read_is_what_was_stored(data: Seq<u8>, state: RateLimit)
    ensures
        read_state(data) == Ok::<RateLimit, AccountDataError>(state) <==> data.len()
            >= RATE_LIMIT_SPACE && data.take(RATE_LIMIT_SPACE as int) == stored(state),
{
    let space = RATE_LIMIT_SPACE as int;
    lemma_le_capacity_of_u64();
    lemma_le_write_then_read(i64_pattern(state.window_start), 8);
    lemma_le_write_then_read(state.window_total as nat, 8);
    if data.len() >= RATE_LIMIT_SPACE {
        let start = data.subrange(8, 16);
        let total = data.subrange(16, 24);
        lemma_le_read_then_write(start);
        lemma_le_read_then_write(total);
        assert(data.take(space) =~= data.take(8) + start + total);
        if data.take(space) == stored(state) {
            assert(data.take(8) =~= data.take(space).take(8));
            assert(stored(state).take(8) =~= RATE_LIMIT_DISCRIMINATOR@);
            assert(start =~= data.take(space).subrange(8, 16));
            assert(stored(state).subrange(8, 16) =~= le_bytes(i64_pattern(state.window_start), 8));
            assert(total =~= data.take(space).subrange(16, 24));
            assert(stored(state).subrange(16, 24) =~= le_bytes(state.window_total as nat, 8));
        }
        if read_state(data) == Ok::<RateLimit, AccountDataError>(state) {
            assert(data.take(space) =~= stored(state));
        }
    }
}

/// Seeds run together, as the derivation of an address hashes them.
pub open spec fn joined(seeds: Seq<Seq<u8>>) -> Seq<u8>
    decreases seeds.len(),
{
    if seeds.len() == 0 {
        Seq::empty()
    } else {
        seeds[0] + joined(seeds.drop_first())
    }
}

/// Each wallet and mint have rate-limit seeds of their own, even when the seeds
/// are run together, and none of them are those of a list of extra accounts.
pub proof fn law_every_wallet_has_its_own_seeds(
    mint: Seq<u8>,
    owner: Seq<u8>,
    other_mint: Seq<u8>,
    other_owner: Seq<u8>,
)
    requires
        mint.len() == 32,
        owner.len() == 32,
        other_mint.len() == 32,
        other_owner.len() == 32,
    ensures
        joined(rate_limit_seeds(mint, owner)) == joined(rate_limit_seeds(other_mint, other_owner))
            ==> mint == other_mint && owner == other_owner,
        joined(rate_limit_seeds(mint, owner)) != joined(extra_account_metas_seeds(other_mint)),
        joined(extra_account_metas_seeds(mint)) == joined(extra_account_metas_seeds(other_mint))
            ==> mint == other_mint,
{
    reveal_with_fuel(joined, 4);
    let a = joined(rate_limit_seeds(mint, owner));
    let b = joined(rate_limit_seeds(other_mint, other_owner));
    assert(a =~= RATE_LIMIT_SEED@ + mint + owner);
    assert(b =~= RATE_LIMIT_SEED@ + other_mint + other_owner);
    let c = joined(extra_account_metas_seeds(mint));
    let d = joined(extra_account_metas_seeds(other_mint));
    assert(c =~= EXTRA_ACCOUNT_METAS_SEED@ + mint);
    assert(d =~= EXTRA_ACCOUNT_METAS_SEED@ + other_mint);
    assert(a.len() == 74 && d.len() == 51);
    if a == b {
        assert(mint =~= a.subrange(10, 42));
        assert(other_mint =~= b.subrange(10, 42));
        assert(owner =~= a.subrange(42, 74));
        assert(other_owner =~= b.subrange(42, 74));
    }
    if c == d {
        assert(mint =~= c.subrange(19, 51));
        assert(other_mint =~= d.subrange(19, 51));
    }
}

/// A token account that carries the hook's extension and no other is in a
/// transfer exactly where its last byte is not zero.
pub proof fn law_flag_is_the_last_byte(data: Seq<u8>)
    requires
        token_account_extensions(data) is Ok,
        data.len() == EXTENSIONS_START + 5,
        data.subrange(166, 170) == seq![15u8, 0, 1, 0],
    ensures
        hook_flag(data) == Some(data[170] != 0),
{
    let extensions = data.skip(EXTENSIONS_START as int);
    let head = data.subrange(166, 170);
    assert(extensions[0] == head[0] && extensions[1] == head[1]);
    assert(extensions[2] == head[2] && extensions[3] == head[3]);
    assert(transferring_flag(extensions) == Some(extensions[4] != 0));
}

/// An `Execute` instruction for `amount` runs the hook on exactly `amount`.
pub proof fn law_execute_reaches_the_hook(
    program_id: Seq<u8>,
    accounts: TransferHook,
    amount: u64,
    now: i64,
)
    requires
        accounts.verdict(program_id) matches Some(Ok(_)),
        transferring_verdict(hook_flag(accounts.source_token.data@)) is Ok ==> age_fits(
            accounts.rate_limit.state,
            now,
        ),
    ensures
        ({
            let data = EXECUTE_TAG@ + le_bytes(amount as nat, 8);
            &&& routed(data) == Ok::<Seq<u8>, InstructionError>(le_bytes(amount as nat, 8))
            &&& fallen_back(program_id, accounts, data, now) == Some(
                match hook_outcome(accounts, now, amount) {
                    Ok(state) => Ok(state),
                    Err(error) => Err(InstructionError::Hook(error)),
                },
            )
        }),
{
    let encoded = le_bytes(amount as nat, 8);
    let data = EXECUTE_TAG@ + encoded;
    lemma_le_capacity_of_u64();
    lemma_le_write_then_read(amount as nat, 8);
    assert(data.take(8) =~= EXECUTE_TAG@);
    assert(data.subrange(8, 16) =~= encoded);
    assert(encoded.take(8) =~= encoded);
    assert(EXECUTE_TAG@[0] != INITIALIZE_TAG@[0]);
    assert(EXECUTE_TAG@[0] != UPDATE_TAG@[0]);
}

/// The seed that a resolver puts in the place of `seed`, given the addresses of
/// the transfer's accounts.
pub open spec fn resolved_seed(seed: SeedView, keys: Seq<Seq<u8>>) -> Seq<u8> {
    match seed {
        SeedView::Literal { bytes } => bytes,
        SeedView::AccountKey { index } => keys[index as int],
    }
}

/// The list of extra accounts and the program's own check agree: resolved
/// against the accounts of a transfer, the declared seeds are those of the
/// sender's rate-limit account.
pub proof fn law_declared_seeds_are_the_senders(
    source: Seq<u8>,
    mint: Seq<u8>,
    destination: Seq<u8>,
    owner: Seq<u8>,
    list: Seq<u8>,
)
    ensures
        hook_seeds().map_values(
            |seed: SeedView| resolved_seed(seed, seq![source, mint, destination, owner, list]),
        ) == rate_limit_seeds(mint, owner),
{
    assert(hook_seeds().map_values(
        |seed: SeedView| resolved_seed(seed, seq![source, mint, destination, owner, list]),
    ) =~= rate_limit_seeds(mint, owner));
}

/// The bytes that make up the list of extra accounts: type, length 39, one
/// entry, which holds the packed seeds, does not sign and is written.
pub open spec fn hook_list_bytes() -> Seq<u8> {
    EXECUTE_TAG@ + seq![39u8, 0, 0, 0] + seq![1u8, 0, 0, 0] + seq![1u8] + (seq![1u8, 10]
        + RATE_LIMIT_SEED@ + seq![3u8, 1, 3, 3] + zeros(16)) + seq![0u8, 1]
}

/// The account that a plan creates is exactly filled by the list that the plan
/// writes.
pub proof fn law_planned_account_is_filled(plan: MetaListPlan, after: Seq<u8>, success: bool)
    requires
        plan.wf(),
        list_written(zeros(plan.account_size as nat), plan.account_metas@, after, success),
    ensures
        success,
        after.len() == plan.account_size,
        after == hook_list_bytes(),
{
    let metas = plan.account_metas@;
    lemma_hook_seeds_packed();
    reveal_with_fuel(stored_metas, 2);
    reveal_with_fuel(le_bytes, 5);
    assert(le_bytes(39, 4) =~= seq![39u8, 0, 0, 0]);
    assert(le_bytes(1, 4) =~= seq![1u8, 0, 0, 0]);
    assert(stored_list(metas) =~= hook_list_bytes());
    assert(after =~= hook_list_bytes());
}

/// The seeds with which the program signs for the list account are the seeds
/// of its address and the bump.
pub proof fn law_program_signs_for_the_list(mint: Seq<u8>, bump: u8)
    ensures
        list_signer_seeds(mint, bump) == extra_account_metas_seeds(mint).push(seq![bump]),
{
    assert(list_signer_seeds(mint, bump) =~= extra_account_metas_seeds(mint).push(seq![bump]));
}

} // verus!
