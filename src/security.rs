use vstd::prelude::*;

use crate::address::Address;
use crate::error::TokenMillError;
use crate::state::{Market, ReferralAccount};

verus! {

/// Names the program-derived address search: the address and bump seed found
/// for `seeds` under `program_id`, or none when no bump seed works.
pub uninterp spec fn program_address_of(seeds: Seq<Seq<u8>>, program_id: Seq<u8>) -> Option<(Seq<u8>, u8)>;

/// Views of a list of seeds.
pub open spec fn seeds_view(seeds: Seq<Vec<u8>>) -> Seq<Seq<u8>> {
    seeds.map_values(|s: Vec<u8>| s@)
}

/// Relies on `Pubkey::try_find_program_address` of `solana_program`: it searches
/// bump seeds from 255 down for one whose derived address is off the curve,
/// a computation on the seeds and program id alone, and returns `None`
/// rather than panicking when none is found or the seeds are too long.
#[verifier::external_body]
fn try_find_program_address(seeds: &Vec<Vec<u8>>, program_id: &Address) -> (r: Option<(Address, u8)>)
    ensures
        match r {
            Some((a, bump)) => program_address_of(seeds_view(seeds@), program_id@) == Some((a@, bump)),
            None => program_address_of(seeds_view(seeds@), program_id@) is None,
        },
{
    let slices: Vec<&[u8]> = seeds.iter().map(|s| s.as_slice()).collect();
    let program = solana_program::pubkey::Pubkey::new_from_array(program_id.bytes);
    match solana_program::pubkey::Pubkey::try_find_program_address(&slices, &program) {
        Some((key, bump)) => Some((Address { bytes: key.to_bytes() }, bump)),
        None => None,
    }
}

/// Checks that `account` is the address derived from `seeds` under `program_id`.
pub fn assert_pda(seeds: &Vec<Vec<u8>>, program_id: &Address, account: &Address) -> (r: Result<(), TokenMillError>)
    ensures
        r is Ok <==> (program_address_of(seeds_view(seeds@), program_id@) matches Some((a, _)) && a == account@),
        r is Err ==> r == Err::<(), TokenMillError>(TokenMillError::InvalidMarketPda),
{
    match try_find_program_address(seeds, program_id) {
        Some((derived, _bump)) => {
            if derived.same(account) {
                Ok(())
            } else {
                Err(TokenMillError::InvalidMarketPda)
            }
        },
        None => Err(TokenMillError::InvalidMarketPda),
    }
}

/// Checks that an account is owned by `owner`, given the account's owner.
pub fn assert_owner(account_owner: &Address, owner: &Address) -> (r: Result<(), TokenMillError>)
    ensures
        account_owner@ == owner@ ==> r is Ok,
        account_owner@ != owner@ ==> r == Err::<(), TokenMillError>(TokenMillError::InvalidAuthority),
{
    if !account_owner.same(owner) {
        return Err(TokenMillError::InvalidAuthority);
    }
    Ok(())
}

/// Seed prefix of market addresses: the bytes of "market".
pub open spec fn market_seed() -> Seq<u8> {
    seq![109u8, 97u8, 114u8, 107u8, 101u8, 116u8]
}

/// Seeds of the market address for `base_token_mint`.
pub fn market_seeds(base_token_mint: &Address) -> (r: Vec<Vec<u8>>)
    ensures
        seeds_view(r@) == seq![market_seed(), base_token_mint@],
{
    let prefix: Vec<u8> = vec![109u8, 97u8, 114u8, 107u8, 101u8, 116u8];
    let mut seeds: Vec<Vec<u8>> = Vec::new();
    seeds.push(prefix);
    seeds.push(vstd::slice::slice_to_vec(base_token_mint.bytes.as_slice()));
    assert(seeds_view(seeds@) =~= seq![market_seed(), base_token_mint@]);
    seeds
}

/// Checks that `market_key` and the market's stored bump are the canonical
/// derivation for its base mint under `program_id`.
pub fn check_market_pda(market: &Market, base_token_mint: &Address, program_id: &Address, market_key: &Address) -> (r:
    Result<(), TokenMillError>)
    ensures
        r is Ok <==> program_address_of(seq![market_seed(), base_token_mint@], program_id@) == Some(
            (market_key@, market.bump),
        ),
        r is Err ==> r == Err::<(), TokenMillError>(TokenMillError::InvalidMarketPda),
{
    let seeds = market_seeds(base_token_mint);
    match try_find_program_address(&seeds, program_id) {
        Some((derived, bump)) => {
            if derived.same(market_key) && bump == market.bump {
                Ok(())
            } else {
                Err(TokenMillError::InvalidMarketPda)
            }
        },
        None => Err(TokenMillError::InvalidMarketPda),
    }
}

/// Seed prefix of referral records: the bytes of "referral".
pub open spec fn referral_seed() -> Seq<u8> {
    seq![114u8, 101u8, 102u8, 101u8, 114u8, 114u8, 97u8, 108u8]
}

/// Seeds of the referral record of `owner` under `config`.
pub fn referral_seeds(config: &Address, owner: &Address) -> (r: Vec<Vec<u8>>)
    ensures
        seeds_view(r@) == seq![referral_seed(), config@, owner@],
{
    let prefix: Vec<u8> = vec![114u8, 101u8, 102u8, 101u8, 114u8, 114u8, 97u8, 108u8];
    let mut seeds: Vec<Vec<u8>> = Vec::new();
    seeds.push(prefix);
    seeds.push(vstd::slice::slice_to_vec(config.bytes.as_slice()));
    seeds.push(vstd::slice::slice_to_vec(owner.bytes.as_slice()));
    assert(seeds_view(seeds@) =~= seq![referral_seed(), config@, owner@]);
    seeds
}

/// Checks that `referral_key` and the record's stored bump are the canonical
/// derivation for its configuration and owner under `program_id`.
pub fn check_referral_pda(referral: &ReferralAccount, program_id: &Address, referral_key: &Address) -> (r: Result<
    (),
    TokenMillError,
>)
    ensures
        r is Ok <==> program_address_of(seq![referral_seed(), referral.config@, referral.owner@], program_id@)
            == Some((referral_key@, referral.bump)),
        r is Err ==> r == Err::<(), TokenMillError>(TokenMillError::InvalidReferralPda),
{
    let seeds = referral_seeds(&referral.config, &referral.owner);
    match try_find_program_address(&seeds, program_id) {
        Some((derived, bump)) => {
            if derived.same(referral_key) && bump == referral.bump {
                Ok(())
            } else {
                Err(TokenMillError::InvalidReferralPda)
            }
        },
        None => Err(TokenMillError::InvalidReferralPda),
    }
}

/// Checks that the market is bound to the given configuration and base mint.
pub fn check_market_accounts(market: &Market, config_key: &Address, base_token_mint: &Address) -> (r: Result<
    (),
    TokenMillError,
>)
    ensures
        market.config@ != config_key@ ==> r == Err::<(), TokenMillError>(TokenMillError::InvalidConfigAccount),
        market.config@ == config_key@ && market.base_token_mint@ != base_token_mint@ ==> r == Err::<
            (),
            TokenMillError,
        >(TokenMillError::InvalidMintAccount),
        market.config@ == config_key@ && market.base_token_mint@ == base_token_mint@ ==> r is Ok,
{
    if !market.config.same(config_key) {
        return Err(TokenMillError::InvalidConfigAccount);
    }
    if !market.base_token_mint.same(base_token_mint) {
        return Err(TokenMillError::InvalidMintAccount);
    }
    Ok(())
}

} // verus!
