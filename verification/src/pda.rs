//! Program-derived addresses of the accounts that the hook owns.

use vstd::prelude::*;

verus! {

/// A 32-byte account address.
pub type Pubkey = [u8; 32];

/// Address of the system program: 32 zero bytes.
pub const SYSTEM_PROGRAM_ID: [u8; 32] = [
    0, 0, 0, 0, 0, 0, 0, 0, 0, 0, 0, 0, 0, 0, 0, 0, 0, 0, 0, 0, 0, 0, 0, 0, 0, 0, 0, 0, 0, 0, 0, 0,
];

/// Seed prefix of the address that holds a mint's list of extra accounts:
/// "extra-account-metas".
pub const EXTRA_ACCOUNT_METAS_SEED: [u8; 19] = [
    101, 120, 116, 114, 97, 45, 97, 99, 99, 111, 117, 110, 116, 45, 109, 101, 116, 97, 115,
];

/// Seed prefix of the address that holds one wallet's rate-limit state:
/// "rate-limit".
pub const RATE_LIMIT_SEED: [u8; 10] = [114, 97, 116, 101, 45, 108, 105, 109, 105, 116];

/// Seeds of the extra-account list of `mint`.
pub open spec fn extra_account_metas_seeds(mint: Seq<u8>) -> Seq<Seq<u8>> {
    seq![EXTRA_ACCOUNT_METAS_SEED@, mint]
}

/// Seeds of the rate-limit account of the wallet `owner` for `mint`.
pub open spec fn rate_limit_seeds(mint: Seq<u8>, owner: Seq<u8>) -> Seq<Seq<u8>> {
    seq![RATE_LIMIT_SEED@, mint, owner]
}

/// The bytes of each seed in turn.
pub open spec fn seed_bytes(seeds: Seq<&[u8]>) -> Seq<Seq<u8>> {
    seeds.map_values(|seed: &[u8]| seed@)
}

/// The address and bump that the derivation finds for `seeds` under
/// `program_id`, or `None` where no bump leads to an address.
pub uninterp spec fn program_address(seeds: Seq<Seq<u8>>, program_id: Seq<u8>) -> Option<
    (Seq<u8>, u8),
>;

/// A derived address, as plain bytes.
pub open spec fn derived_view(derived: Option<(Pubkey, u8)>) -> Option<(Seq<u8>, u8)> {
    match derived {
        Some((address, bump)) => Some((address@, bump)),
        None => None,
    }
}

/// Where `mint` keeps its list of extra accounts.
pub open spec fn extra_account_metas_derived(mint: Seq<u8>, program_id: Seq<u8>) -> Option<
    (Seq<u8>, u8),
> {
    program_address(extra_account_metas_seeds(mint), program_id)
}

/// Where the hook keeps the rate-limit state of `owner` for `mint`.
pub open spec fn rate_limit_derived(
    mint: Seq<u8>,
    owner: Seq<u8>,
    program_id: Seq<u8>,
) -> Option<(Seq<u8>, u8)> {
    program_address(rate_limit_seeds(mint, owner), program_id)
}

/// `Pubkey::try_find_program_address`: the address and bump found for `seeds`
/// under `program_id`, or `None` where every bump fails. The search is a hash
/// over the seeds, the bump and the program, so its result is only named.
#[verifier::external_body]
fn try_find_program_address(seeds: &[&[u8]], program_id: &Pubkey) -> (derived: Option<(Pubkey, u8)>)
    ensures
        derived_view(derived) == program_address(seed_bytes(seeds@), program_id@),
{
    let program = anchor_lang::prelude::Pubkey::new_from_array(*program_id);
    anchor_lang::prelude::Pubkey::try_find_program_address(seeds, &program)
        .map(|(address, bump)| (address.to_bytes(), bump))
}

/// Derives the address and bump of the extra-account list of `mint`.
pub fn extra_account_metas_address(mint: &Pubkey, program_id: &Pubkey) -> (derived: Option<
    (Pubkey, u8),
>)
    ensures
        derived_view(derived) == extra_account_metas_derived(mint@, program_id@),
{
    let prefix: [u8; 19] = EXTRA_ACCOUNT_METAS_SEED;
    let seeds: [&[u8]; 2] = [prefix.as_slice(), mint.as_slice()];
    proof {
        assert(seed_bytes(seeds@) =~= extra_account_metas_seeds(mint@));
    }
    try_find_program_address(seeds.as_slice(), program_id)
}

/// Derives the address and bump of the rate-limit account of `owner` for `mint`.
pub fn rate_limit_address(mint: &Pubkey, owner: &Pubkey, program_id: &Pubkey) -> (derived: Option<
    (Pubkey, u8),
>)
    ensures
        derived_view(derived) == rate_limit_derived(mint@, owner@, program_id@),
{
    let prefix: [u8; 10] = RATE_LIMIT_SEED;
    let seeds: [&[u8]; 3] = [prefix.as_slice(), mint.as_slice(), owner.as_slice()];
    proof {
        assert(seed_bytes(seeds@) =~= rate_limit_seeds(mint@, owner@));
    }
    try_find_program_address(seeds.as_slice(), program_id)
}

/// Whether two addresses are the same.
pub fn same_key(a: &Pubkey, b: &Pubkey) -> (same: bool)
    ensures
        same == (a@ == b@),
        same == (*a == *b),
{
    let mut i: usize = 0;
    while i < 32
        invariant
            i <= 32,
            forall|j: int| 0 <= j < i ==> a@[j] == b@[j],
        decreases 32 - i,
    {
        if a[i] != b[i] {
            assert(a@[i as int] != b@[i as int]);
            return false;
        }
        i = i + 1;
    }
    assert(a@ =~= b@);
    assert(*a =~= *b);
    true
}

} // verus!
