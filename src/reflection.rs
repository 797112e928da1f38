use vstd::prelude::*;
use vstd::arithmetic::div_mod::*;
use vstd::arithmetic::mul::*;

use crate::address::{address_listed, contains_address, Address};
use crate::error::TokenMillError;
use crate::state::{ExclusionList, Market, ReflectionLedger, ReflectionState, TokenMillConfig};

verus! {

/// Largest number of holders an exclusion list holds.
pub const MAX_EXCLUDED: usize = 128;

impl ReflectionState {
    /// Adds `added` tokens to the pool and, when there is supply to spread
    /// them over, raises the index by `added * scale / total_supply`.
    pub open spec fn credit_spec(self, added: u64, total_supply: u64) -> Result<ReflectionState, TokenMillError> {
        let pool = self.total_reflection_pool + added;
        let incr = if total_supply > 0 {
            added * self.scale / total_supply as int
        } else {
            0
        };
        if pool > u64::MAX || (total_supply > 0 && added * self.scale > u128::MAX) || self.per_share + incr
            > u128::MAX {
            Err(TokenMillError::MathOverflow)
        } else {
            Ok(
                ReflectionState {
                    total_reflection_pool: pool as u64,
                    per_share: (self.per_share + incr) as u128,
                    ..self
                },
            )
        }
    }

    /// A manual settlement: a credit that needs a non-zero supply and stamps
    /// the settlement time.
    pub open spec fn settle_spec(self, added: u64, total_supply: u64, now: i64) -> Result<
        ReflectionState,
        TokenMillError,
    > {
        if total_supply == 0 {
            Err(TokenMillError::InvalidMarketState)
        } else {
            match self.credit_spec(added, total_supply) {
                Ok(s) => Ok(ReflectionState { last_settlement: now, ..s }),
                Err(e) => Err(e),
            }
        }
    }

    /// Credits `added` tokens to the pool; unchanged on failure.
    pub fn credit(&mut self, added: u64, total_supply: u64) -> (r: Result<(), TokenMillError>)
        ensures
            match r {
                Ok(()) => old(self).credit_spec(added, total_supply) == Ok::<ReflectionState, TokenMillError>(
                    *final(self),
                ),
                Err(e) => old(self).credit_spec(added, total_supply) == Err::<ReflectionState, TokenMillError>(e)
                    && *final(self) == *old(self),
            },
    {
        let pool = match self.total_reflection_pool.checked_add(added) {
            Some(v) => v,
            None => return Err(TokenMillError::MathOverflow),
        };
        let mut per_share = self.per_share;
        if total_supply > 0 {
            let scaled = match (added as u128).checked_mul(self.scale) {
                Some(v) => v,
                None => return Err(TokenMillError::MathOverflow),
            };
            let incr = scaled / total_supply as u128;
            per_share = match per_share.checked_add(incr) {
                Some(v) => v,
                None => return Err(TokenMillError::MathOverflow),
            };
        }
        self.total_reflection_pool = pool;
        self.per_share = per_share;
        Ok(())
    }

    /// Settles tokens added to the pool outside the simulated buyback.
    pub fn settle(&mut self, added: u64, total_supply: u64, now: i64) -> (r: Result<(), TokenMillError>)
        ensures
            match r {
                Ok(()) => old(self).settle_spec(added, total_supply, now) == Ok::<
                    ReflectionState,
                    TokenMillError,
                >(*final(self)),
                Err(e) => old(self).settle_spec(added, total_supply, now) == Err::<
                    ReflectionState,
                    TokenMillError,
                >(e) && *final(self) == *old(self),
            },
    {
        if total_supply == 0 {
            return Err(TokenMillError::InvalidMarketState);
        }
        match self.credit(added, total_supply) {
            Ok(()) => {
                self.last_settlement = now;
                Ok(())
            },
            Err(e) => Err(e),
        }
    }
}

/// Manual settlement by the configured authority of `added` tokens that
/// reached the pool, spread over the market's supply at time `now`.
pub fn settle_reflection(
    config: &TokenMillConfig,
    signer: &Address,
    reflection: &mut ReflectionState,
    market: &Market,
    added: u64,
    now: i64,
) -> (r: Result<(), TokenMillError>)
    ensures
        signer@ != config.authority@ ==> r == Err::<(), TokenMillError>(TokenMillError::InvalidAuthority)
            && *final(reflection) == *old(reflection),
        signer@ == config.authority@ ==> match r {
            Ok(()) => old(reflection).settle_spec(added, market.total_supply, now) == Ok::<
                ReflectionState,
                TokenMillError,
            >(*final(reflection)),
            Err(e) => old(reflection).settle_spec(added, market.total_supply, now) == Err::<
                ReflectionState,
                TokenMillError,
            >(e) && *final(reflection) == *old(reflection),
        },
{
    if !signer.same(&config.authority) {
        return Err(TokenMillError::InvalidAuthority);
    }
    reflection.settle(added, market.total_supply, now)
}

/// `balance * (per_share - last_per_share) / scale`, rounded down.
pub open spec fn owed_spec(balance: int, per_share: int, last_per_share: int, scale: int) -> int {
    balance * (per_share - last_per_share) / scale
}

/// Outcome of a holder's claim: the ledger afterwards and the tokens owed.
/// Excluded holders are refused. Nothing is owed while the index has not
/// risen past the ledger; a claim that rounds to zero leaves the ledger as it
/// is, so the dust stays claimable later.
pub open spec fn claim_spec(excluded: bool, state: ReflectionState, ledger: ReflectionLedger, balance: u64) -> Result<
    (ReflectionLedger, u64),
    TokenMillError,
> {
    let owed = owed_spec(balance as int, state.per_share as int, ledger.last_per_share as int, state.scale as int);
    if excluded {
        Err(TokenMillError::UnauthorizedMarket)
    } else if state.per_share <= ledger.last_per_share {
        Ok((ledger, 0))
    } else if balance * (state.per_share - ledger.last_per_share) > u128::MAX || state.scale == 0 {
        Err(TokenMillError::MathOverflow)
    } else if owed == 0 {
        Ok((ledger, 0))
    } else if owed > u64::MAX {
        Err(TokenMillError::MathOverflow)
    } else {
        Ok((ReflectionLedger { last_per_share: state.per_share, ..ledger }, owed as u64))
    }
}

/// Computes what `owner` may claim with `holder_balance` tokens and moves the
/// ledger up to the current index; the caller then transfers the amount.
pub fn claim_reflection(
    exclusion: &ExclusionList,
    owner: &Address,
    state: &ReflectionState,
    ledger: &mut ReflectionLedger,
    holder_balance: u64,
) -> (r: Result<u64, TokenMillError>)
    ensures
        old(ledger).owner@ != owner@ ==> r == Err::<u64, TokenMillError>(TokenMillError::InvalidAuthority)
            && *final(ledger) == *old(ledger),
        old(ledger).owner@ == owner@ ==> match r {
            Ok(owed) => claim_spec(address_listed(exclusion.excluded@, owner@), *state, *old(ledger), holder_balance)
                == Ok::<(ReflectionLedger, u64), TokenMillError>((*final(ledger), owed)),
            Err(e) => claim_spec(address_listed(exclusion.excluded@, owner@), *state, *old(ledger), holder_balance)
                == Err::<(ReflectionLedger, u64), TokenMillError>(e) && *final(ledger) == *old(ledger),
        },
{
    if !ledger.owner.same(owner) {
        return Err(TokenMillError::InvalidAuthority);
    }
    if contains_address(&exclusion.excluded, owner) {
        return Err(TokenMillError::UnauthorizedMarket);
    }
    let per_share = state.per_share;
    let last = ledger.last_per_share;
    if per_share <= last {
        return Ok(0);
    }
    let delta = per_share - last;
    let scaled = match (holder_balance as u128).checked_mul(delta) {
        Some(v) => v,
        None => return Err(TokenMillError::MathOverflow),
    };
    if state.scale == 0 {
        return Err(TokenMillError::MathOverflow);
    }
    let owed = scaled / state.scale;
    if owed == 0 {
        return Ok(0);
    }
    if owed > u64::MAX as u128 {
        return Err(TokenMillError::MathOverflow);
    }
    ledger.last_per_share = per_share;
    Ok(owed as u64)
}

/// The state after applying each `(added, total_supply, now)` settlement in
/// turn, a failed one leaving the state as it was.
pub open spec fn settle_all(s: ReflectionState, steps: Seq<(u64, u64, i64)>) -> ReflectionState
    decreases steps.len(),
{
    if steps.len() == 0 {
        s
    } else {
        let next = match s.settle_spec(steps[0].0, steps[0].1, steps[0].2) {
            Ok(t) => t,
            Err(_) => s,
        };
        settle_all(next, steps.drop_first())
    }
}

/// Settlements never lower the index, never change its scale, and the pool
/// only grows.
pub proof fn lemma_settlements_monotone(s: ReflectionState, steps: Seq<(u64, u64, i64)>)
    ensures
        settle_all(s, steps).per_share >= s.per_share,
        settle_all(s, steps).scale == s.scale,
        settle_all(s, steps).total_reflection_pool >= s.total_reflection_pool,
    decreases steps.len(),
{
    if steps.len() > 0 {
        let (added, supply, now) = steps[0];
        if supply > 0 {
            lemma_mul_nonnegative(added as int, s.scale as int);
            lemma_div_pos_is_pos(added * s.scale, supply as int);
        }
        let next = match s.settle_spec(added, supply, now) {
            Ok(t) => t,
            Err(_) => s,
        };
        lemma_settlements_monotone(next, steps.drop_first());
    }
}

/// A claim pays what the index rise owes the holder's balance, rounded down,
/// and nothing when the index has not risen; afterwards the ledger never
/// runs ahead of the index.
pub proof fn lemma_claim_bounded(excluded: bool, state: ReflectionState, ledger: ReflectionLedger, balance: u64)
    requires
        ledger.last_per_share <= state.per_share,
        claim_spec(excluded, state, ledger, balance) is Ok,
    ensures
        ({
            let (l2, owed) = claim_spec(excluded, state, ledger, balance)->Ok_0;
            &&& state.per_share == ledger.last_per_share ==> owed == 0
            &&& state.per_share > ledger.last_per_share ==> owed <= owed_spec(
                balance as int,
                state.per_share as int,
                ledger.last_per_share as int,
                state.scale as int,
            )
            &&& ledger.last_per_share <= l2.last_per_share <= state.per_share
        }),
{
    if state.per_share > ledger.last_per_share && state.scale > 0 {
        lemma_mul_nonnegative(balance as int, state.per_share - ledger.last_per_share);
        lemma_div_pos_is_pos(balance * (state.per_share - ledger.last_per_share), state.scale as int);
    }
}

impl ExclusionList {
    /// An empty exclusion list administered by `admin`.
    pub fn new(bump: u8, admin: Address) -> (r: ExclusionList)
        ensures
            r.bump == bump,
            r.admin == admin,
            r.excluded@.len() == 0,
    {
        ExclusionList { bump, admin, excluded: Vec::new() }
    }

    /// Adds `addr` (once; a full list refuses) or removes every copy of it.
    pub fn update(&mut self, add: bool, addr: &Address) -> (r: Result<(), TokenMillError>)
        ensures
            final(self).bump == old(self).bump,
            final(self).admin == old(self).admin,
            add && old(self).excluded@.len() >= MAX_EXCLUDED ==> r == Err::<(), TokenMillError>(
                TokenMillError::InvalidMarket,
            ) && final(self).excluded@ == old(self).excluded@,
            add && old(self).excluded@.len() < MAX_EXCLUDED ==> r is Ok && final(self).excluded@ == if address_listed(
                old(self).excluded@,
                addr@,
            ) {
                old(self).excluded@
            } else {
                old(self).excluded@.push(*addr)
            },
            !add ==> r is Ok && final(self).excluded@ == old(self).excluded@.filter(
                |x: Address| x@ != addr@,
            ),
    {
        if add {
            if self.excluded.len() >= MAX_EXCLUDED {
                return Err(TokenMillError::InvalidMarket);
            }
            if !contains_address(&self.excluded, addr) {
                self.excluded.push(*addr);
            }
            Ok(())
        } else {
            let ghost old_list = self.excluded@;
            let mut kept: Vec<Address> = Vec::new();
            let mut i: usize = 0;
            while i < self.excluded.len()
                invariant
                    0 <= i <= self.excluded@.len(),
                    self.excluded@ == old_list,
                    kept@ == old_list.take(i as int).filter(|x: Address| x@ != addr@),
                decreases self.excluded@.len() - i,
            {
                let x = self.excluded[i];
                proof {
                    assert(old_list.take(i + 1) =~= old_list.take(i as int).push(x));
                    old_list.take(i as int).lemma_filter_push(x, |x: Address| x@ != addr@);
                }
                if !x.same(addr) {
                    kept.push(x);
                }
                i = i + 1;
            }
            proof {
                assert(old_list.take(old_list.len() as int) =~= old_list);
            }
            self.excluded = kept;
            Ok(())
        }
    }
}

} // verus!
