//! The per-wallet rate limit: a fixed window and the amount moved in it.

use vstd::prelude::*;
use vstd::slice::{slice_subrange, slice_to_vec};

use crate::error::{AccountDataError, TransferHookError};
use crate::laws::law_read_is_what_was_stored;
use crate::le::{
    i64_from_pattern, i64_of_pattern, i64_pattern, i64_to_pattern, le_bytes, le_value, u64_from_le,
    u64_to_le,
};
use crate::pda::{same_key, Pubkey, SYSTEM_PROGRAM_ID};

verus! {

/// Length of one window: 24 hours.
pub const WINDOW_SECONDS: i64 = 86_400;

/// What one wallet may move in one window: 0.5 tokens at 6 decimals.
pub const LIMIT_PER_WINDOW: u64 = 500_000;

/// Bytes that the fields of a stored state take.
pub const INIT_SPACE: usize = 16;

/// Bytes that a stored state takes, its discriminator included.
pub const RATE_LIMIT_SPACE: usize = 24;

/// One wallet's window.
#[derive(Clone, Copy, Debug, PartialEq, Eq, Structural)]
pub struct RateLimit {
    /// When the current window opened (unix timestamp).
    pub window_start: i64,
    /// Tokens moved so far in this window.
    pub window_total: u64,
}

/// Whether the window that `state` describes is over at `now`.
pub open spec fn window_is_over(state: RateLimit, now: i64) -> bool {
    now - state.window_start >= WINDOW_SECONDS
}

/// The window that a transfer at `now` counts against: the current one, or a
/// new and empty one where the current one is over.
pub open spec fn window_at(state: RateLimit, now: i64) -> RateLimit {
    if window_is_over(state, now) {
        RateLimit { window_start: now, window_total: 0 }
    } else {
        state
    }
}

/// What becomes of a wallet's window when the wallet moves `amount` at `now`.
pub open spec fn charged(state: RateLimit, now: i64, amount: u64) -> Result<
    RateLimit,
    TransferHookError,
> {
    let window = window_at(state, now);
    let total = window.window_total + amount;
    if total > u64::MAX {
        Err(TransferHookError::Overflow)
    } else if total > LIMIT_PER_WINDOW {
        Err(TransferHookError::RateLimitExceeded)
    } else {
        Ok(RateLimit { window_start: window.window_start, window_total: total as u64 })
    }
}

/// Whether the age of the window at `now` is a signed 64-bit number.
pub open spec fn age_fits(state: RateLimit, now: i64) -> bool {
    i64::MIN <= now - state.window_start <= i64::MAX
}

/// The eight bytes that open every stored state.
pub const RATE_LIMIT_DISCRIMINATOR: [u8; 8] = [135, 30, 107, 183, 187, 159, 75, 202];

/// A state as it is stored: discriminator, window start, window total.
pub open spec fn stored(state: RateLimit) -> Seq<u8> {
    RATE_LIMIT_DISCRIMINATOR@ + le_bytes(i64_pattern(state.window_start), 8) + le_bytes(
        state.window_total as nat,
        8,
    )
}

/// The fields that stand behind the discriminator in `data`.
pub open spec fn fields_of(data: Seq<u8>) -> RateLimit {
    RateLimit {
        window_start: i64_of_pattern(le_value(data.subrange(8, 16))),
        window_total: le_value(data.subrange(16, 24)) as u64,
    }
}

/// The state that `data` holds, or why it holds none.
pub open spec fn read_state(data: Seq<u8>) -> Result<RateLimit, AccountDataError> {
    if data.len() < 8 {
        Err(AccountDataError::AccountDiscriminatorNotFound)
    } else if data.take(8) != RATE_LIMIT_DISCRIMINATOR@ {
        Err(AccountDataError::AccountDiscriminatorMismatch)
    } else if data.len() < RATE_LIMIT_SPACE {
        Err(AccountDataError::AccountDidNotDeserialize)
    } else {
        Ok(fields_of(data))
    }
}

/// The state in an account that belongs to `owner` and holds `lamports` and
/// `data`, or why `program_id` cannot load it.
pub open spec fn loaded_rate_limit(
    owner: Seq<u8>,
    lamports: nat,
    data: Seq<u8>,
    program_id: Seq<u8>,
) -> Result<RateLimit, AccountDataError> {
    if owner == program_id {
        read_state(data)
    } else if owner == SYSTEM_PROGRAM_ID@ && lamports == 0 {
        Err(AccountDataError::AccountNotInitialized)
    } else {
        Err(AccountDataError::AccountOwnedByWrongProgram)
    }
}

/// Whether `data` opens with the discriminator of a rate-limit state.
fn has_discriminator(data: &[u8]) -> (opens: bool)
    requires
        data@.len() >= 8,
    ensures
        opens == (data@.take(8) == RATE_LIMIT_DISCRIMINATOR@),
{
    let expected: [u8; 8] = RATE_LIMIT_DISCRIMINATOR;
    let mut i: usize = 0;
    while i < 8
        invariant
            i <= 8,
            data@.len() >= 8,
            expected@ == RATE_LIMIT_DISCRIMINATOR@,
            forall|j: int| 0 <= j < i ==> data@[j] == expected@[j],
        decreases 8 - i,
    {
        if data[i] != expected[i] {
            assert(data@.take(8)[i as int] != RATE_LIMIT_DISCRIMINATOR@[i as int]);
            return false;
        }
        i = i + 1;
    }
    assert(data@.take(8) =~= RATE_LIMIT_DISCRIMINATOR@);
    true
}

impl RateLimit {
    /// No wallet's state ever records more than the limit.
    pub open spec fn wf(self) -> bool {
        self.window_total <= LIMIT_PER_WINDOW
    }

    /// A window that opens at `now` with nothing moved.
    pub fn opened_at(now: i64) -> (state: RateLimit)
        ensures
            state.window_start == now,
            state.window_total == 0,
            state.wf(),
    {
        RateLimit { window_start: now, window_total: 0 }
    }

    /// Charges `amount` at `now`. A refused charge leaves the state as it was.
    pub fn charge(&mut self, now: i64, amount: u64) -> (outcome: Result<(), TransferHookError>)
        requires
            age_fits(*old(self), now),
        ensures
            match charged(*old(self), now, amount) {
                Ok(state) => outcome == Ok::<(), TransferHookError>(()) && *final(self) == state,
                Err(error) => outcome == Err::<(), TransferHookError>(error) && *final(self)
                    == *old(self),
            },
            old(self).wf() ==> final(self).wf(),
            now - old(self).window_start >= 86_400 && amount <= 500_000 ==> outcome == Ok::<
                (),
                TransferHookError,
            >(()) && final(self).window_start == now && final(self).window_total == amount,
            now - old(self).window_start < 86_400 ==> final(self).window_start
                == old(self).window_start,
    {
        let mut window: RateLimit = *self;
        if now - self.window_start >= WINDOW_SECONDS {
            window.window_start = now;
            window.window_total = 0;
        }
        match window.window_total.checked_add(amount) {
            None => Err(TransferHookError::Overflow),
            Some(new_total) => {
                if new_total <= LIMIT_PER_WINDOW {
                    window.window_total = new_total;
                    *self = window;
                    Ok(())
                } else {
                    Err(TransferHookError::RateLimitExceeded)
                }
            },
        }
    }

    /// The bytes under which the state is stored.
    pub fn try_serialize(&self) -> (data: Vec<u8>)
        ensures
            data@ == stored(*self),
    {
        let mut data: Vec<u8> = slice_to_vec(RATE_LIMIT_DISCRIMINATOR.as_slice());
        let mut start: Vec<u8> = u64_to_le(i64_to_pattern(self.window_start));
        let mut total: Vec<u8> = u64_to_le(self.window_total);
        data.append(&mut start);
        data.append(&mut total);
        data
    }

    /// Reads a stored state; bytes past the fields are not looked at.
    pub fn try_deserialize(data: &[u8]) -> (outcome: Result<RateLimit, AccountDataError>)
        ensures
            outcome == read_state(data@),
            forall|state: RateLimit|
                outcome == Ok::<RateLimit, AccountDataError>(state) <==> data@.len()
                    >= RATE_LIMIT_SPACE && data@.take(RATE_LIMIT_SPACE as int) == #[trigger] stored(
                    state,
                ),
    {
        proof {
            assert forall|state: RateLimit|
                read_state(data@) == Ok::<RateLimit, AccountDataError>(state) <==> data@.len()
                    >= RATE_LIMIT_SPACE && data@.take(RATE_LIMIT_SPACE as int) == #[trigger] stored(
                    state,
                ) by {
                law_read_is_what_was_stored(data@, state);
            }
        }
        if data.len() < 8 {
            return Err(AccountDataError::AccountDiscriminatorNotFound);
        }
        if !has_discriminator(data) {
            return Err(AccountDataError::AccountDiscriminatorMismatch);
        }
        if data.len() < RATE_LIMIT_SPACE {
            return Err(AccountDataError::AccountDidNotDeserialize);
        }
        let start = slice_subrange(data, 8, 16);
        let total = slice_subrange(data, 16, 24);
        Ok(
            RateLimit {
                window_start: i64_from_pattern(u64_from_le(start)),
                window_total: u64_from_le(total),
            },
        )
    }
}

/// Loads the rate-limit state from an account that belongs to `owner` and holds
/// `lamports` and `data`. Only an account of the program is loaded.
pub fn load_rate_limit(owner: &Pubkey, lamports: u64, data: &[u8], program_id: &Pubkey) -> (outcome:
    Result<RateLimit, AccountDataError>)
    ensures
        outcome == loaded_rate_limit(owner@, lamports as nat, data@, program_id@),
        forall|state: RateLimit|
            outcome == Ok::<RateLimit, AccountDataError>(state) <==> owner@ == program_id@
                && data@.len() >= RATE_LIMIT_SPACE && data@.take(RATE_LIMIT_SPACE as int)
                == #[trigger] stored(state),
{
    if same_key(owner, program_id) {
        RateLimit::try_deserialize(data)
    } else if same_key(owner, &SYSTEM_PROGRAM_ID) && lamports == 0 {
        Err(AccountDataError::AccountNotInitialized)
    } else {
        Err(AccountDataError::AccountOwnedByWrongProgram)
    }
}

} // verus!
