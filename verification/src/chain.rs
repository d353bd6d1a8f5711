//! What holds of the program on a chain: of every account, through any calls of
//! the hook, registrations of wallets and creations of lists, in any order.

use vstd::prelude::*;

use crate::accounts::{InitializeExtraAccountMetaList, InitializeRateLimit, TransferHook};
use crate::error::{AccountDataError, InstructionError, TransferHookError};
use crate::instruction::{spelled, TransferHookInstruction, EXECUTE_TAG};
use crate::laws::{
    hook_list_bytes, law_execute_reaches_the_hook, law_read_is_what_was_stored,
    law_stored_state_reads_back,
};
use crate::le::{le_bytes, le_value, lemma_le_capacity_of_u64, lemma_le_write_then_read};
use crate::pda::{rate_limit_derived, SYSTEM_PROGRAM_ID};
use crate::program::{fallen_back, list_verdict, processed, registered, with_state};
use crate::rate_limit::{
    age_fits, charged, loaded_rate_limit, stored, window_at, RateLimit, LIMIT_PER_WINDOW,
    RATE_LIMIT_DISCRIMINATOR, RATE_LIMIT_SPACE,
};
use crate::token_account::hook_flag;

verus! {

/// An account as the chain holds it.
pub struct StoredAccount {
    pub lamports: nat,
    pub data: Seq<u8>,
    pub owner: Seq<u8>,
}

/// All accounts, by their addresses.
pub type Chain = Map<Seq<u8>, StoredAccount>;

/// The account at `key`; an address that nothing is stored at belongs to the
/// system program and is empty.
pub open spec fn account_at(chain: Chain, key: Seq<u8>) -> StoredAccount {
    if chain.contains_key(key) {
        chain[key]
    } else {
        StoredAccount { lamports: 0, data: Seq::empty(), owner: SYSTEM_PROGRAM_ID@ }
    }
}

/// Whether an account holds data or belongs to a program other than the
/// system's, so that no space can be allocated for it.
pub open spec fn is_occupied(account: StoredAccount) -> bool {
    account.data.len() > 0 || account.owner != SYSTEM_PROGRAM_ID@
}

/// Whether an account exists, so that it cannot be created.
pub open spec fn is_in_use(account: StoredAccount) -> bool {
    account.lamports > 0 || is_occupied(account)
}

/// Whether the system program takes `amount` lamports from an account: the
/// account has them, carries no data and belongs to the system program.
pub open spec fn can_pay(account: StoredAccount, amount: nat) -> bool {
    account.lamports >= amount && !is_occupied(account)
}

/// The rate-limit state at `key`, or why the program cannot load it.
pub open spec fn limit_at(chain: Chain, program_id: Seq<u8>, key: Seq<u8>) -> Result<
    RateLimit,
    AccountDataError,
> {
    let account = account_at(chain, key);
    loaded_rate_limit(account.owner, account.lamports, account.data, program_id)
}

/// The two ways into the hook: a raw interface instruction, and the program's
/// own instruction with its argument bytes.
pub enum Entry {
    Raw { data: Seq<u8> },
    Direct { arguments: Seq<u8> },
}

/// A call of the hook.
pub struct Call {
    pub accounts: TransferHook,
    pub entry: Entry,
    pub now: i64,
}

/// What a call comes to.
pub open spec fn call_result(program_id: Seq<u8>, call: Call) -> Option<
    Result<RateLimit, InstructionError>,
> {
    match call.entry {
        Entry::Raw { data } => fallen_back(program_id, call.accounts, data, call.now),
        Entry::Direct { arguments } => processed(program_id, call.accounts, arguments, call.now),
    }
}

/// The amount that a call asks to move.
pub open spec fn call_amount(call: Call) -> u64 {
    match call.entry {
        Entry::Raw { data } => match spelled(data) {
            Some(TransferHookInstruction::Execute { amount }) => amount,
            _ => 0,
        },
        Entry::Direct { arguments } => le_value(arguments.take(8)) as u64,
    }
}

/// A call as the program sees it: with the state that is stored at the address
/// of its rate-limit account.
pub open spec fn loaded(call: Call, state: RateLimit) -> Call {
    Call { accounts: with_state(call.accounts, state), ..call }
}

/// Whether a call goes through: its rate-limit account can be loaded and the
/// hook accepts.
pub open spec fn goes_through(chain: Chain, program_id: Seq<u8>, call: Call) -> bool {
    match limit_at(chain, program_id, call.accounts.rate_limit.key@) {
        Ok(state) => call_result(program_id, loaded(call, state)) matches Some(Ok(_)),
        Err(_) => false,
    }
}

/// An account with `state` written over the front of its data.
pub open spec fn with_stored(account: StoredAccount, state: RateLimit) -> StoredAccount {
    StoredAccount { data: stored(state) + account.data.skip(RATE_LIMIT_SPACE as int), ..account }
}

/// All accounts after a call.
pub open spec fn chain_after_call(chain: Chain, program_id: Seq<u8>, call: Call) -> Chain {
    let key = call.accounts.rate_limit.key@;
    match limit_at(chain, program_id, key) {
        Ok(before) => match call_result(program_id, loaded(call, before)) {
            Some(Ok(state)) => chain.insert(key, with_stored(account_at(chain, key), state)),
            _ => chain,
        },
        Err(_) => chain,
    }
}

/// What an attempt to register a wallet comes to.
pub open spec fn registration_result(
    chain: Chain,
    program_id: Seq<u8>,
    accounts: InitializeRateLimit,
    now: i64,
) -> Option<Result<RateLimit, InstructionError>> {
    registered(
        program_id,
        accounts,
        is_occupied(account_at(chain, accounts.rate_limit.key@)),
        now,
    )
}

/// What registering costs the payer, where a rate-limit account has to hold
/// `rent` lamports: whatever the address does not hold yet.
pub open spec fn registration_cost(
    chain: Chain,
    accounts: InitializeRateLimit,
    rent: u64,
) -> nat {
    let held = account_at(chain, accounts.rate_limit.key@).lamports;
    if held >= rent {
        0
    } else {
        (rent - held) as nat
    }
}

/// Whether the payer of a registration can fund it. Where the address holds
/// enough already, nothing is taken from the payer.
pub open spec fn registration_is_funded(
    chain: Chain,
    accounts: InitializeRateLimit,
    rent: u64,
) -> bool {
    let held = account_at(chain, accounts.rate_limit.key@).lamports;
    let cost = registration_cost(chain, accounts, rent);
    &&& accounts.payer@ != accounts.rate_limit.key@
    &&& (held > 0 && cost == 0) || can_pay(account_at(chain, accounts.payer@), cost)
}

/// All accounts after an attempt to register a wallet: the payer has paid, and
/// the rate-limit account holds the first window and belongs to the program.
pub open spec fn chain_after_registration(
    chain: Chain,
    program_id: Seq<u8>,
    accounts: InitializeRateLimit,
    rent: u64,
    now: i64,
) -> Chain {
    let key = accounts.rate_limit.key@;
    match registration_result(chain, program_id, accounts, now) {
        Some(Ok(state)) => if registration_is_funded(chain, accounts, rent) {
            let payer = account_at(chain, accounts.payer@);
            let cost = registration_cost(chain, accounts, rent);
            chain.insert(
                accounts.payer@,
                StoredAccount { lamports: (payer.lamports - cost) as nat, ..payer },
            ).insert(
                key,
                StoredAccount {
                    lamports: account_at(chain, key).lamports + cost,
                    data: stored(state),
                    owner: program_id,
                },
            )
        } else {
            chain
        },
        _ => chain,
    }
}

/// What an attempt to give a mint its list comes to.
pub open spec fn list_result(
    chain: Chain,
    program_id: Seq<u8>,
    accounts: InitializeExtraAccountMetaList,
) -> Option<Result<u8, InstructionError>> {
    list_verdict(
        program_id,
        accounts,
        is_in_use(account_at(chain, accounts.extra_account_meta_list@)),
    )
}

/// Whether an attempt to give a mint its list, with `lamports` for the new
/// account, goes through: it is not refused and the payer, which is another
/// account, can pay.
pub open spec fn list_is_made(
    chain: Chain,
    program_id: Seq<u8>,
    accounts: InitializeExtraAccountMetaList,
    lamports: u64,
) -> bool {
    &&& list_result(chain, program_id, accounts) matches Some(Ok(_))
    &&& accounts.payer@ != accounts.extra_account_meta_list@
    &&& can_pay(account_at(chain, accounts.payer@), lamports as nat)
}

/// All accounts after an attempt to give a mint its list: the payer has paid,
/// and the list account holds the list and belongs to the program.
pub open spec fn chain_after_list(
    chain: Chain,
    program_id: Seq<u8>,
    accounts: InitializeExtraAccountMetaList,
    lamports: u64,
) -> Chain {
    if list_is_made(chain, program_id, accounts, lamports) {
        let payer = account_at(chain, accounts.payer@);
        chain.insert(
            accounts.payer@,
            StoredAccount { lamports: (payer.lamports - lamports) as nat, ..payer },
        ).insert(
            accounts.extra_account_meta_list@,
            StoredAccount {
                lamports: lamports as nat,
                data: hook_list_bytes(),
                owner: program_id,
            },
        )
    } else {
        chain
    }
}

/// Anything that the program can be asked to do.
pub enum Step {
    Hook { call: Call },
    Register { wallet: InitializeRateLimit, rent: u64, now: i64 },
    MakeList { list: InitializeExtraAccountMetaList, lamports: u64 },
}

/// All accounts after a step.
pub open spec fn chain_after_step(chain: Chain, program_id: Seq<u8>, step: Step) -> Chain {
    match step {
        Step::Hook { call } => chain_after_call(chain, program_id, call),
        Step::Register { wallet, rent, now } => chain_after_registration(
            chain,
            program_id,
            wallet,
            rent,
            now,
        ),
        Step::MakeList { list, lamports } => chain_after_list(chain, program_id, list, lamports),
    }
}

/// All accounts after a series of steps.
pub open spec fn chain_after_all(chain: Chain, program_id: Seq<u8>, steps: Seq<Step>) -> Chain
    decreases steps.len(),
{
    if steps.len() == 0 {
        chain
    } else {
        chain_after_all(
            chain_after_step(chain, program_id, steps[0]),
            program_id,
            steps.drop_first(),
        )
    }
}

/// Whether a step moves tokens under the rate-limit account at `address`.
pub open spec fn moves_under(
    chain: Chain,
    program_id: Seq<u8>,
    step: Step,
    address: Seq<u8>,
) -> bool {
    match step {
        Step::Hook { call } => goes_through(chain, program_id, call)
            && call.accounts.rate_limit.key@ == address,
        _ => false,
    }
}

/// What a step moves under the rate-limit account at `address`, in the window
/// that opened at `start`.
pub open spec fn moved_by_step(
    chain: Chain,
    program_id: Seq<u8>,
    step: Step,
    address: Seq<u8>,
    start: i64,
) -> nat {
    let next = chain_after_step(chain, program_id, step);
    match step {
        Step::Hook { call } => if moves_under(chain, program_id, step, address) && (limit_at(
            next,
            program_id,
            address,
        ) matches Ok(state) && state.window_start == start) {
            call_amount(call) as nat
        } else {
            0
        },
        _ => 0,
    }
}

/// What a series of steps moves under the rate-limit account at `address`, in
/// the window that opened at `start`.
pub open spec fn moved_through(
    chain: Chain,
    program_id: Seq<u8>,
    steps: Seq<Step>,
    address: Seq<u8>,
    start: i64,
) -> nat
    decreases steps.len(),
{
    if steps.len() == 0 {
        0
    } else {
        moved_by_step(chain, program_id, steps[0], address, start) + moved_through(
            chain_after_step(chain, program_id, steps[0]),
            program_id,
            steps.drop_first(),
            address,
            start,
        )
    }
}

/// What the account at `address` has recorded for the window that opened at
/// `start`.
pub open spec fn recorded(
    chain: Chain,
    program_id: Seq<u8>,
    address: Seq<u8>,
    start: i64,
) -> nat {
    match limit_at(chain, program_id, address) {
        Ok(state) => if state.window_start == start {
            state.window_total as nat
        } else {
            0
        },
        Err(_) => 0,
    }
}

/// A state that has been written is loaded again.
proof fn lemma_written_state_loads(account: StoredAccount, state: RateLimit)
    ensures
        loaded_rate_limit(
            account.owner,
            account.lamports,
            with_stored(account, state).data,
            account.owner,
        ) == Ok::<RateLimit, AccountDataError>(state),
{
    let data = with_stored(account, state).data;
    law_stored_state_reads_back(state, state);
    assert(data.take(RATE_LIMIT_SPACE as int) =~= stored(state));
    law_read_is_what_was_stored(data, state);
}

/// A call that goes through charges its amount to the stored state, inside a
/// transfer, at the address of its sender and mint.
proof fn lemma_call_charges(chain: Chain, program_id: Seq<u8>, call: Call)
    requires
        goes_through(chain, program_id, call),
    ensures
        ({
            let key = call.accounts.rate_limit.key@;
            let after = limit_at(chain_after_call(chain, program_id, call), program_id, key);
            &&& limit_at(chain, program_id, key) matches Ok(before) && after matches Ok(state)
                && charged(before, call.now, call_amount(call)) == Ok::<
                RateLimit,
                TransferHookError,
            >(state)
            &&& rate_limit_derived(
                call.accounts.mint@,
                call.accounts.owner@,
                program_id,
            ) matches Some((address, _)) && address == key
            &&& hook_flag(call.accounts.source_token.data@) == Some(true)
        }),
{
    let key = call.accounts.rate_limit.key@;
    let before = limit_at(chain, program_id, key)->Ok_0;
    let state = call_result(program_id, loaded(call, before))->Some_0->Ok_0;
    lemma_written_state_loads(account_at(chain, key), state);
    match call.entry {
        Entry::Raw { data } => {
            match spelled(data) {
                Some(TransferHookInstruction::Execute { amount }) => {
                    let encoded = le_bytes(amount as nat, 8);
                    lemma_le_capacity_of_u64();
                    lemma_le_write_then_read(amount as nat, 8);
                    assert(encoded.take(8) =~= encoded);
                },
                _ => {},
            }
        },
        Entry::Direct { .. } => {},
    }
}

/// What one step does to the state at `address`: a call that moves tokens under
/// it charges it, and no other step touches it; where there is none, a step can
/// only open an empty window.
proof fn lemma_step(chain: Chain, program_id: Seq<u8>, step: Step, address: Seq<u8>)
    ensures
        ({
            let next = chain_after_step(chain, program_id, step);
            let after = limit_at(next, program_id, address);
            match limit_at(chain, program_id, address) {
                Ok(before) => after matches Ok(state) && if moves_under(
                    chain,
                    program_id,
                    step,
                    address,
                ) {
                    step matches Step::Hook { call } && charged(
                        before,
                        call.now,
                        call_amount(call),
                    ) == Ok::<RateLimit, TransferHookError>(state)
                } else {
                    state == before
                },
                Err(_) => !moves_under(chain, program_id, step, address) && (after matches Ok(state)
                    ==> state.window_total == 0),
            }
        }),
{
    match step {
        Step::Hook { call } => {
            if goes_through(chain, program_id, call) {
                lemma_call_charges(chain, program_id, call);
            }
        },
        Step::Register { now, .. } => {
            let state = RateLimit { window_start: now, window_total: 0 };
            law_stored_state_reads_back(state, state);
            assert(stored(state).take(RATE_LIMIT_SPACE as int) =~= stored(state));
            law_read_is_what_was_stored(stored(state), state);
        },
        Step::MakeList { .. } => {
            assert(hook_list_bytes().take(8) =~= EXECUTE_TAG@);
            assert(EXECUTE_TAG@[0] != RATE_LIMIT_DISCRIMINATOR@[0]);
        },
    }
}

/// Only a stored state is charged: a call that goes through finds, at the
/// address of its rate-limit account, an account of the program that opens with
/// the stored form of a state, and writes the charged state over it. Nothing
/// else changes: no account is made, and no lamports move.
pub proof fn law_only_a_stored_state_is_charged(chain: Chain, program_id: Seq<u8>, call: Call)
    requires
        goes_through(chain, program_id, call),
    ensures
        ({
            let key = call.accounts.rate_limit.key@;
            let account = account_at(chain, key);
            let after = chain_after_call(chain, program_id, call);
            &&& chain.contains_key(key)
            &&& account.owner == program_id
            &&& account.data.len() >= RATE_LIMIT_SPACE
            &&& limit_at(chain, program_id, key) matches Ok(before) && account.data.take(
                RATE_LIMIT_SPACE as int,
            ) == stored(before) && (charged(before, call.now, call_amount(call)) matches Ok(state)
                && after == chain.insert(key, with_stored(account, state)))
            &&& after.dom() == chain.dom()
            &&& account_at(after, key).data.len() == account.data.len()
        }),
{
    let key = call.accounts.rate_limit.key@;
    let account = account_at(chain, key);
    let before = limit_at(chain, program_id, key)->Ok_0;
    let state = call_result(program_id, loaded(call, before))->Some_0->Ok_0;
    lemma_call_charges(chain, program_id, call);
    lemma_written_state_loads(account, state);
    law_read_is_what_was_stored(account.data, before);
    law_stored_state_reads_back(state, state);
    assert(chain.insert(key, with_stored(account, state)).dom() =~= chain.dom());
}

/// Where no state can be loaded for a sender and mint, be it that the wallet has
/// not been registered, that the account belongs to another program or that it
/// holds other bytes, no call goes through, and none changes any account.
pub proof fn law_unregistered_wallets_move_nothing(chain: Chain, program_id: Seq<u8>, call: Call)
    requires
        rate_limit_derived(call.accounts.mint@, call.accounts.owner@, program_id) matches Some(
            (own, _),
        ) ==> limit_at(chain, program_id, own) is Err,
    ensures
        !goes_through(chain, program_id, call),
        chain_after_call(chain, program_id, call) == chain,
{
    if goes_through(chain, program_id, call) {
        lemma_call_charges(chain, program_id, call);
    }
}

/// Limits are per wallet: a call leaves every account as it was but the one at
/// the address of the sender and the mint.
pub proof fn law_limits_are_per_wallet(
    chain: Chain,
    program_id: Seq<u8>,
    call: Call,
    other: Seq<u8>,
)
    requires
        rate_limit_derived(call.accounts.mint@, call.accounts.owner@, program_id) matches Some(
            (own, _),
        ) ==> own != other,
    ensures
        account_at(chain_after_call(chain, program_id, call), other) == account_at(chain, other),
{
    if goes_through(chain, program_id, call) {
        lemma_call_charges(chain, program_id, call);
    }
}

/// Where a call is refused, or the program aborts, every account stays as it
/// was.
pub proof fn law_refused_calls_change_nothing(chain: Chain, program_id: Seq<u8>, call: Call)
    requires
        !goes_through(chain, program_id, call),
    ensures
        chain_after_call(chain, program_id, call) == chain,
{
}

/// A registered wallet whose window leaves room for `amount` moves it: an
/// `Execute` inside a transfer, on the accounts that the seeds lead to, goes
/// through, and its wallet's window records `amount` more. Where the window is
/// over, a new one is charged instead.
pub proof fn law_what_fits_goes_through(
    chain: Chain,
    program_id: Seq<u8>,
    accounts: TransferHook,
    before: RateLimit,
    amount: u64,
    now: i64,
)
    requires
        accounts.verdict(program_id) matches Some(Ok(_)),
        hook_flag(accounts.source_token.data@) == Some(true),
        limit_at(chain, program_id, accounts.rate_limit.key@) == Ok::<RateLimit, AccountDataError>(
            before,
        ),
        age_fits(before, now),
        window_at(before, now).window_total + amount <= LIMIT_PER_WINDOW,
    ensures
        ({
            let key = accounts.rate_limit.key@;
            let window = window_at(before, now);
            let data = EXECUTE_TAG@ + le_bytes(amount as nat, 8);
            let call = Call { accounts, entry: Entry::Raw { data }, now };
            &&& goes_through(chain, program_id, call)
            &&& call_amount(call) == amount
            &&& limit_at(chain_after_call(chain, program_id, call), program_id, key) == Ok::<
                RateLimit,
                AccountDataError,
            >(
                RateLimit {
                    window_start: window.window_start,
                    window_total: (window.window_total + amount) as u64,
                },
            )
        }),
{
    let seen = with_state(accounts, before);
    let data = EXECUTE_TAG@ + le_bytes(amount as nat, 8);
    let call = Call { accounts, entry: Entry::Raw { data }, now };
    assert(seen.verdict(program_id) == accounts.verdict(program_id));
    law_execute_reaches_the_hook(program_id, seen, amount, now);
    assert(loaded(call, before).accounts == seen);
    assert(goes_through(chain, program_id, call));
    lemma_call_charges(chain, program_id, call);
    lemma_le_capacity_of_u64();
    lemma_le_write_then_read(amount as nat, 8);
    assert(data.take(8) =~= EXECUTE_TAG@);
    assert(data.subrange(8, 16) =~= le_bytes(amount as nat, 8));
}

/// The hook runs inside a transfer only: where the token program has not marked
/// the source account, no call, whatever its bytes, goes through or changes any
/// account.
pub proof fn law_only_a_transfer_runs_the_hook(
    chain: Chain,
    program_id: Seq<u8>,
    call: Call,
)
    requires
        hook_flag(call.accounts.source_token.data@) != Some(true),
    ensures
        !goes_through(chain, program_id, call),
        chain_after_call(chain, program_id, call) == chain,
{
    if goes_through(chain, program_id, call) {
        lemma_call_charges(chain, program_id, call);
    }
}

/// Whoever can fund it can register any wallet: the wallet's own address, which
/// the mint and the wallet determine, then belongs to the program and holds an
/// empty window that opens at `now`. Only the payer is charged, for what the
/// address does not hold yet, and every other account stays as it was.
pub proof fn law_registration_charges_the_payer(
    chain: Chain,
    program_id: Seq<u8>,
    accounts: InitializeRateLimit,
    rent: u64,
    now: i64,
    other: Seq<u8>,
)
    requires
        accounts.verdict(program_id) matches Some(Ok(_)),
        !is_occupied(account_at(chain, accounts.rate_limit.key@)),
        registration_is_funded(chain, accounts, rent),
    ensures
        ({
            let key = accounts.rate_limit.key@;
            let payer = account_at(chain, accounts.payer@);
            let cost = registration_cost(chain, accounts, rent);
            let first = RateLimit { window_start: now, window_total: 0 };
            let after = chain_after_registration(chain, program_id, accounts, rent, now);
            &&& registration_result(chain, program_id, accounts, now) == Some(
                Ok::<RateLimit, InstructionError>(first),
            )
            &&& rate_limit_derived(
                accounts.mint@,
                accounts.owner@,
                program_id,
            ) matches Some((own, _)) && own == key
            &&& account_at(after, key) == (StoredAccount {
                lamports: account_at(chain, key).lamports + cost,
                data: stored(first),
                owner: program_id,
            })
            &&& account_at(after, key).data.len() == RATE_LIMIT_SPACE
            &&& limit_at(after, program_id, key) == Ok::<RateLimit, AccountDataError>(first)
            &&& cost <= payer.lamports
            &&& account_at(after, accounts.payer@) == (StoredAccount {
                lamports: (payer.lamports - cost) as nat,
                ..payer
            })
            &&& !chain.contains_key(key) ==> cost == rent
            &&& other != key && other != accounts.payer@ ==> account_at(after, other)
                == account_at(chain, other)
        }),
{
    let first = RateLimit { window_start: now, window_total: 0 };
    law_stored_state_reads_back(first, first);
    assert(stored(first).take(RATE_LIMIT_SPACE as int) =~= stored(first));
    law_read_is_what_was_stored(stored(first), first);
}

/// It does not matter who pays for a registration, the wallet itself or anyone
/// else: for every payer that can fund it the result is the same, at the same
/// address, and costs the same.
pub proof fn law_anyone_can_pay_for_a_registration(
    chain: Chain,
    program_id: Seq<u8>,
    accounts: InitializeRateLimit,
    others: InitializeRateLimit,
    rent: u64,
    now: i64,
)
    requires
        others == (InitializeRateLimit { payer: others.payer, ..accounts }),
        registration_is_funded(chain, accounts, rent),
        registration_is_funded(chain, others, rent),
    ensures
        registration_result(chain, program_id, accounts, now) == registration_result(
            chain,
            program_id,
            others,
            now,
        ),
        registration_cost(chain, accounts, rent) == registration_cost(chain, others, rent),
        account_at(
            chain_after_registration(chain, program_id, accounts, rent, now),
            accounts.rate_limit.key@,
        ) == account_at(
            chain_after_registration(chain, program_id, others, rent, now),
            accounts.rate_limit.key@,
        ),
{
}

/// A wallet is registered once: registering it again, by whomever, is refused
/// and leaves every account as it was, so that nobody's window can be reset.
pub proof fn law_registration_happens_once(
    chain: Chain,
    program_id: Seq<u8>,
    accounts: InitializeRateLimit,
    rent: u64,
    now: i64,
)
    requires
        limit_at(chain, program_id, accounts.rate_limit.key@) is Ok || is_occupied(
            account_at(chain, accounts.rate_limit.key@),
        ),
    ensures
        accounts.verdict(program_id) matches Some(Ok(_)) ==> registration_result(
            chain,
            program_id,
            accounts,
            now,
        ) == Some(Err::<RateLimit, InstructionError>(InstructionError::AccountAlreadyInUse)),
        chain_after_registration(chain, program_id, accounts, rent, now) == chain,
{
}

/// Whatever the program is asked to do, by whomever and in whatever order, one
/// rate-limit account lets at most `LIMIT_PER_WINDOW` through in each of its
/// windows.
pub proof fn law_no_steps_exceed_the_limit(
    chain: Chain,
    program_id: Seq<u8>,
    steps: Seq<Step>,
    address: Seq<u8>,
    start: i64,
)
    requires
        limit_at(chain, program_id, address) matches Ok(state) ==> state.wf(),
    ensures
        moved_through(chain, program_id, steps, address, start) + recorded(
            chain,
            program_id,
            address,
            start,
        ) <= LIMIT_PER_WINDOW,
    decreases steps.len(),
{
    if steps.len() > 0 {
        let next = chain_after_step(chain, program_id, steps[0]);
        let rest = steps.drop_first();
        lemma_step(chain, program_id, steps[0], address);
        law_no_steps_exceed_the_limit(next, program_id, rest, address, start);
        if limit_at(next, program_id, address) matches Ok(state) && start < state.window_start {
            lemma_closed_window_stays_closed(next, program_id, rest, address, start);
        }
    }
}

/// A window that an account has left lets nothing through any more.
proof fn lemma_closed_window_stays_closed(
    chain: Chain,
    program_id: Seq<u8>,
    steps: Seq<Step>,
    address: Seq<u8>,
    start: i64,
)
    requires
        limit_at(chain, program_id, address) matches Ok(state) && start < state.window_start,
    ensures
        moved_through(chain, program_id, steps, address, start) == 0,
    decreases steps.len(),
{
    if steps.len() > 0 {
        lemma_step(chain, program_id, steps[0], address);
        lemma_closed_window_stays_closed(
            chain_after_step(chain, program_id, steps[0]),
            program_id,
            steps.drop_first(),
            address,
            start,
        );
    }
}

/// No step removes a state or moves its window back.
proof fn lemma_states_stay(
    chain: Chain,
    program_id: Seq<u8>,
    steps: Seq<Step>,
    address: Seq<u8>,
)
    requires
        limit_at(chain, program_id, address) is Ok,
    ensures
        limit_at(chain_after_all(chain, program_id, steps), program_id, address) matches Ok(end)
            && limit_at(chain, program_id, address)->Ok_0.window_start <= end.window_start,
    decreases steps.len(),
{
    if steps.len() > 0 {
        lemma_step(chain, program_id, steps[0], address);
        lemma_states_stay(
            chain_after_step(chain, program_id, steps[0]),
            program_id,
            steps.drop_first(),
            address,
        );
    }
}

/// Whatever the program is asked to do, the total recorded at an address is what
/// its window has let through, and, where that window was there from the start,
/// what it had recorded before.
pub proof fn law_chain_records_what_moves(
    chain: Chain,
    program_id: Seq<u8>,
    steps: Seq<Step>,
    address: Seq<u8>,
)
    requires
        limit_at(chain_after_all(chain, program_id, steps), program_id, address) is Ok,
    ensures
        ({
            let end = limit_at(
                chain_after_all(chain, program_id, steps),
                program_id,
                address,
            )->Ok_0;
            end.window_total == moved_through(
                chain,
                program_id,
                steps,
                address,
                end.window_start,
            ) + recorded(chain, program_id, address, end.window_start)
        }),
    decreases steps.len(),
{
    if steps.len() > 0 {
        let next = chain_after_step(chain, program_id, steps[0]);
        let rest = steps.drop_first();
        lemma_step(chain, program_id, steps[0], address);
        law_chain_records_what_moves(next, program_id, rest, address);
        if limit_at(next, program_id, address) is Ok {
            lemma_states_stay(next, program_id, rest, address);
        }
    }
}

/// A mint's list is made once: after it has been made, another attempt for the
/// mint, by whomever and with whatever lamports, is refused, and changes no
/// account: the list, its lamports and its owner stay, and nobody pays.
pub proof fn law_list_is_made_once(
    chain: Chain,
    program_id: Seq<u8>,
    first: InitializeExtraAccountMetaList,
    lamports: u64,
    second: InitializeExtraAccountMetaList,
    more_lamports: u64,
)
    requires
        list_is_made(chain, program_id, first, lamports),
        second.mint == first.mint,
    ensures
        ({
            let after = chain_after_list(chain, program_id, first, lamports);
            &&& account_at(after, first.extra_account_meta_list@) == (StoredAccount {
                lamports: lamports as nat,
                data: hook_list_bytes(),
                owner: program_id,
            })
            &&& account_at(after, first.payer@).lamports == account_at(
                chain,
                first.payer@,
            ).lamports - lamports
            &&& list_result(after, program_id, second) matches Some(Err(error)) && (
            second.verdict(program_id) matches Some(Ok(_)) ==> error
                == InstructionError::AccountAlreadyInUse)
            &&& chain_after_list(after, program_id, second, more_lamports) == after
        }),
{
    let after = chain_after_list(chain, program_id, first, lamports);
    assert(account_at(after, first.extra_account_meta_list@).data.len() > 0);
}

/// An account that exists is touched by no attempt to make a list, whatever the
/// mint, but by those that it pays for; one that holds data, such as a list,
/// pays for none.
pub proof fn law_made_list_stays(
    chain: Chain,
    program_id: Seq<u8>,
    accounts: InitializeExtraAccountMetaList,
    lamports: u64,
    list: Seq<u8>,
)
    requires
        is_occupied(account_at(chain, list)) || is_in_use(account_at(chain, list))
            && accounts.payer@ != list,
    ensures
        account_at(chain_after_list(chain, program_id, accounts, lamports), list) == account_at(
            chain,
            list,
        ),
        accounts.extra_account_meta_list@ == list ==> chain_after_list(
            chain,
            program_id,
            accounts,
            lamports,
        ) == chain,
{
}

/// A mint's list stays as it was made, whatever the program is asked to do: no
/// step changes its bytes, its lamports or its owner.
pub proof fn law_list_stays_for_good(
    chain: Chain,
    program_id: Seq<u8>,
    steps: Seq<Step>,
    list: Seq<u8>,
)
    requires
        account_at(chain, list).data == hook_list_bytes(),
    ensures
        account_at(chain_after_all(chain, program_id, steps), list) == account_at(chain, list),
    decreases steps.len(),
{
    if steps.len() > 0 {
        assert(hook_list_bytes().take(8) =~= EXECUTE_TAG@);
        assert(EXECUTE_TAG@[0] != RATE_LIMIT_DISCRIMINATOR@[0]);
        assert(limit_at(chain, program_id, list) is Err);
        law_list_stays_for_good(
            chain_after_step(chain, program_id, steps[0]),
            program_id,
            steps.drop_first(),
            list,
        );
    }
}

} // verus!
