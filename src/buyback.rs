use vstd::prelude::*;

use crate::address::{address_listed, contains_address, zero_address, Address};
use crate::error::TokenMillError;
use crate::state::{BuybackState, Market, ReflectionState, TokenMillConfig};

verus! {

/// Whether an instruction for `program` with `n_accounts` auxiliary accounts
/// may be forwarded: the program must be allow-listed and the account count
/// within the configured cap.
pub open spec fn forwarding_check_spec(config: TokenMillConfig, program: Seq<u8>, n_accounts: int) -> Result<
    (),
    TokenMillError,
> {
    if !address_listed(config.cpi_whitelist@, program) {
        Err(TokenMillError::UnauthorizedMarket)
    } else if n_accounts > config.max_forwarded_accounts {
        Err(TokenMillError::InvalidMarketState)
    } else {
        Ok(())
    }
}

/// Validates a forwarded instruction's target and account count.
pub fn check_forwarding(config: &TokenMillConfig, program: &Address, n_accounts: usize) -> (r: Result<
    (),
    TokenMillError,
>)
    ensures
        r == forwarding_check_spec(*config, program@, n_accounts as int),
{
    if !contains_address(&config.cpi_whitelist, program) {
        return Err(TokenMillError::UnauthorizedMarket);
    }
    if n_accounts > config.max_forwarded_accounts as usize {
        return Err(TokenMillError::InvalidMarketState);
    }
    Ok(())
}

/// The buyback goes through a delegated swap when a non-empty instruction and
/// a non-zero program are supplied; otherwise it is simulated at the market's
/// starting price.
pub open spec fn delegated_buyback(swap_ix: Option<Seq<u8>>, external_program: Seq<u8>) -> bool {
    swap_ix matches Some(ix) && ix.len() > 0 && external_program != zero_address()
}

/// Outcome of a buyback of `lamports`: the two states afterwards and the
/// tokens credited to the reward pool.
pub open spec fn buyback_spec(
    market: Market,
    config: TokenMillConfig,
    bb: BuybackState,
    refl: ReflectionState,
    external_program: Seq<u8>,
    n_accounts: int,
    lamports: u64,
    swap_ix: Option<Seq<u8>>,
) -> Result<(BuybackState, ReflectionState, u64), TokenMillError> {
    if delegated_buyback(swap_ix, external_program) {
        match forwarding_check_spec(config, external_program, n_accounts) {
            Err(e) => Err(e),
            Ok(()) => {
                if bb.total_buyback_lamports + lamports > u64::MAX {
                    Err(TokenMillError::MathOverflow)
                } else {
                    Ok(
                        (
                            BuybackState {
                                total_buyback_lamports: (bb.total_buyback_lamports + lamports) as u64,
                                ..bb
                            },
                            refl,
                            0,
                        ),
                    )
                }
            },
        }
    } else if market.base_price == 0 {
        Err(TokenMillError::InvalidPrice)
    } else {
        let tokens = lamports / market.base_price;
        match refl.credit_spec(tokens as u64, market.total_supply) {
            Err(e) => Err(e),
            Ok(r2) => {
                if bb.total_buyback_lamports + lamports > u64::MAX || bb.total_buyback_tokens + tokens
                    > u64::MAX {
                    Err(TokenMillError::MathOverflow)
                } else {
                    Ok(
                        (
                            BuybackState {
                                total_buyback_lamports: (bb.total_buyback_lamports + lamports) as u64,
                                total_buyback_tokens: (bb.total_buyback_tokens + tokens) as u64,
                                ..bb
                            },
                            r2,
                            tokens as u64,
                        ),
                    )
                }
            },
        }
    }
}

/// Records a buyback. On the delegated path the caller then forwards the
/// instruction, and the tokens it yields are credited later by a manual
/// settlement; on the simulated path the bought tokens go straight to the
/// reward pool. Returns the tokens credited now. On failure nothing changes.
pub fn perform_buyback(
    market: &Market,
    config: &TokenMillConfig,
    bb: &mut BuybackState,
    refl: &mut ReflectionState,
    external_program: &Address,
    n_accounts: usize,
    lamports: u64,
    swap_ix: &Option<Vec<u8>>,
) -> (r: Result<u64, TokenMillError>)
    ensures
        ({
            let ix = match swap_ix {
                Some(v) => Some(v@),
                None => None,
            };
            let expected = buyback_spec(
                *market,
                *config,
                *old(bb),
                *old(refl),
                external_program@,
                n_accounts as int,
                lamports,
                ix,
            );
            match r {
                Ok(tokens) => expected == Ok::<(BuybackState, ReflectionState, u64), TokenMillError>(
                    (*final(bb), *final(refl), tokens),
                ),
                Err(e) => expected == Err::<(BuybackState, ReflectionState, u64), TokenMillError>(e)
                    && *final(bb) == *old(bb) && *final(refl) == *old(refl),
            }
        }),
{
    let ghost ix = match swap_ix {
        Some(v) => Some(v@),
        None => None::<Seq<u8>>,
    };
    let delegated = match swap_ix {
        Some(v) => v.len() > 0 && !external_program.is_zero(),
        None => false,
    };
    assert(delegated == delegated_buyback(ix, external_program@));
    if delegated {
        match check_forwarding(config, external_program, n_accounts) {
            Ok(()) => {},
            Err(e) => return Err(e),
        }
        let total = match bb.total_buyback_lamports.checked_add(lamports) {
            Some(v) => v,
            None => return Err(TokenMillError::MathOverflow),
        };
        bb.total_buyback_lamports = total;
        return Ok(0);
    }
    let price = market.base_price;
    if price == 0 {
        return Err(TokenMillError::InvalidPrice);
    }
    let tokens = lamports / price;
    let mut credited = *refl;
    match credited.credit(tokens, market.total_supply) {
        Ok(()) => {},
        Err(e) => return Err(e),
    }
    let total_lamports = match bb.total_buyback_lamports.checked_add(lamports) {
        Some(v) => v,
        None => return Err(TokenMillError::MathOverflow),
    };
    let total_tokens = match bb.total_buyback_tokens.checked_add(tokens) {
        Some(v) => v,
        None => return Err(TokenMillError::MathOverflow),
    };
    *refl = credited;
    bb.total_buyback_lamports = total_lamports;
    bb.total_buyback_tokens = total_tokens;
    Ok(tokens)
}

impl BuybackState {
    /// A buyback record with nothing spent yet.
    pub fn new(bump: u8) -> (r: BuybackState)
        ensures
            r.bump == bump,
            r.total_buyback_lamports == 0,
            r.total_buyback_tokens == 0,
    {
        BuybackState { bump, total_buyback_lamports: 0, total_buyback_tokens: 0 }
    }
}

/// A buyback never lowers either accumulator.
pub proof fn lemma_buyback_monotone(
    market: Market,
    config: TokenMillConfig,
    bb: BuybackState,
    refl: ReflectionState,
    external_program: Seq<u8>,
    n_accounts: int,
    lamports: u64,
    swap_ix: Option<Seq<u8>>,
)
    requires
        buyback_spec(market, config, bb, refl, external_program, n_accounts, lamports, swap_ix) is Ok,
    ensures
        ({
            let (bb2, refl2, _) = buyback_spec(
                market,
                config,
                bb,
                refl,
                external_program,
                n_accounts,
                lamports,
                swap_ix,
            )->Ok_0;
            &&& bb2.total_buyback_lamports == bb.total_buyback_lamports + lamports
            &&& bb2.total_buyback_tokens >= bb.total_buyback_tokens
            &&& refl2.per_share >= refl.per_share
        }),
{
    if !delegated_buyback(swap_ix, external_program) {
        let tokens = lamports / market.base_price;
        if market.total_supply > 0 {
            vstd::arithmetic::mul::lemma_mul_nonnegative(tokens as int, refl.scale as int);
            vstd::arithmetic::div_mod::lemma_div_pos_is_pos(tokens * refl.scale, market.total_supply as int);
        }
    }
}

} // verus!
