use vstd::prelude::*;

use crate::address::{zero_address, Address};
use crate::buyback::{check_forwarding, forwarding_check_spec};
use crate::discount::ONE_SOL;
use crate::error::TokenMillError;
use crate::purchase::purchase_spec;
use crate::state::{Market, MarketFees, TokenMillConfig};

verus! {

/// Buyback spend, in lamports, from which a market may migrate without override.
pub const MIGRATION_THRESHOLD_LAMPORTS: u64 = 60_000 * ONE_SOL;

/// Fixed bonus, in lamports, paid to the creator on migration.
pub const CREATOR_BONUS_LAMPORTS: u64 = 200 * ONE_SOL;

/// What the caller carries out once a migration is recorded.
#[derive(Clone, Copy, Debug, PartialEq, Eq, Structural)]
pub struct MigrationPlan {
    /// Lamports to pay the creator from the market's holding.
    pub creator_payout: u64,
    /// Forward the liquidity-creation instruction to the external program.
    pub forward_create_lp: bool,
    /// Forward the position-burn instruction to the external program.
    pub forward_burn_lp: bool,
}

/// Whether a supplied instruction is forwarded: it must be non-empty and the
/// external program non-zero.
pub open spec fn forwards(ix: Option<Seq<u8>>, external_program: Seq<u8>) -> bool {
    ix matches Some(v) && v.len() > 0 && external_program != zero_address()
}

/// Outcome of migrating: an already migrated market, or one whose buyback
/// spend is below the threshold without override, is refused; a non-zero
/// external program must pass the forwarding checks. The creator is owed the
/// pending fees plus the bonus, paid as far as `market_lamports` allows, and
/// the pending fees drop by what was paid.
pub open spec fn migrate_spec(
    m: Market,
    config: TokenMillConfig,
    total_buyback_lamports: u64,
    force: bool,
    market_lamports: u64,
    external_program: Seq<u8>,
    n_accounts: int,
    create_lp_ix: Option<Seq<u8>>,
    burn_lp_ix: Option<Seq<u8>>,
) -> Result<(Market, MigrationPlan), TokenMillError> {
    let owed = m.fees.pending_creator_fees + CREATOR_BONUS_LAMPORTS;
    let payout = if owed > market_lamports {
        market_lamports as int
    } else {
        owed
    };
    let pending = if payout >= m.fees.pending_creator_fees {
        0
    } else {
        m.fees.pending_creator_fees - payout
    };
    if m.is_migrated {
        Err(TokenMillError::InvalidMarketState)
    } else if total_buyback_lamports < MIGRATION_THRESHOLD_LAMPORTS && !force {
        Err(TokenMillError::InvalidMarketState)
    } else if external_program != zero_address() && forwarding_check_spec(
        config,
        external_program,
        n_accounts,
    ) is Err {
        Err(forwarding_check_spec(config, external_program, n_accounts)->Err_0)
    } else {
        Ok(
            (
                Market {
                    is_migrated: true,
                    fees: MarketFees { pending_creator_fees: pending as u64, ..m.fees },
                    ..m
                },
                MigrationPlan {
                    creator_payout: payout as u64,
                    forward_create_lp: forwards(create_lp_ix, external_program),
                    forward_burn_lp: forwards(burn_lp_ix, external_program),
                },
            ),
        )
    }
}

fn will_forward(ix: &Option<Vec<u8>>, external_program: &Address) -> (r: bool)
    ensures
        r == forwards(
            match ix {
                Some(v) => Some(v@),
                None => None,
            },
            external_program@,
        ),
{
    match ix {
        Some(v) => v.len() > 0 && !external_program.is_zero(),
        None => false,
    }
}

/// Moves the market to its terminal migrated state and plans the creator
/// payout and the forwarded liquidity instructions. On failure the market is
/// unchanged.
pub fn migrate(
    market: &mut Market,
    config: &TokenMillConfig,
    total_buyback_lamports: u64,
    force: bool,
    market_lamports: u64,
    external_program: &Address,
    n_accounts: usize,
    create_lp_ix: &Option<Vec<u8>>,
    burn_lp_ix: &Option<Vec<u8>>,
) -> (r: Result<MigrationPlan, TokenMillError>)
    ensures
        ({
            let expected = migrate_spec(
                *old(market),
                *config,
                total_buyback_lamports,
                force,
                market_lamports,
                external_program@,
                n_accounts as int,
                match create_lp_ix {
                    Some(v) => Some(v@),
                    None => None,
                },
                match burn_lp_ix {
                    Some(v) => Some(v@),
                    None => None,
                },
            );
            match r {
                Ok(plan) => expected == Ok::<(Market, MigrationPlan), TokenMillError>((*final(market), plan)),
                Err(e) => expected == Err::<(Market, MigrationPlan), TokenMillError>(e) && *final(market)
                    == *old(market),
            }
        }),
{
    if market.is_migrated {
        return Err(TokenMillError::InvalidMarketState);
    }
    if total_buyback_lamports < MIGRATION_THRESHOLD_LAMPORTS && !force {
        return Err(TokenMillError::InvalidMarketState);
    }
    let program_is_zero = external_program.is_zero();
    if !program_is_zero {
        match check_forwarding(config, external_program, n_accounts) {
            Ok(()) => {},
            Err(e) => return Err(e),
        }
    }
    let pending = market.fees.pending_creator_fees as u128;
    let owed = pending + CREATOR_BONUS_LAMPORTS as u128;
    let payout = if owed > market_lamports as u128 {
        market_lamports as u128
    } else {
        owed
    };
    let remaining = if payout >= pending {
        0
    } else {
        pending - payout
    };
    market.is_migrated = true;
    market.fees.pending_creator_fees = remaining as u64;
    let forward_create_lp = will_forward(create_lp_ix, external_program);
    let forward_burn_lp = will_forward(burn_lp_ix, external_program);
    Ok(MigrationPlan { creator_payout: payout as u64, forward_create_lp, forward_burn_lp })
}

/// Migration is one way: once it succeeds the market is migrated, every
/// further migration attempt fails, and every purchase fails with
/// `MarketMigrated`.
pub proof fn lemma_migration_one_way(
    m: Market,
    config: TokenMillConfig,
    total_buyback_lamports: u64,
    force: bool,
    market_lamports: u64,
    external_program: Seq<u8>,
    n_accounts: int,
    create_lp_ix: Option<Seq<u8>>,
    burn_lp_ix: Option<Seq<u8>>,
)
    requires
        migrate_spec(
            m,
            config,
            total_buyback_lamports,
            force,
            market_lamports,
            external_program,
            n_accounts,
            create_lp_ix,
            burn_lp_ix,
        ) is Ok,
    ensures
        ({
            let m2 = migrate_spec(
                m,
                config,
                total_buyback_lamports,
                force,
                market_lamports,
                external_program,
                n_accounts,
                create_lp_ix,
                burn_lp_ix,
            )->Ok_0.0;
            &&& m2.is_migrated
            &&& forall|c: TokenMillConfig, t: u64, f: bool, l: u64, p: Seq<u8>, n: int, ci: Option<Seq<u8>>, bi: Option<Seq<u8>>|
                #[trigger] migrate_spec(m2, c, t, f, l, p, n, ci, bi) == Err::<(Market, MigrationPlan), TokenMillError>(
                    TokenMillError::InvalidMarketState,
                )
            &&& forall|pbp: u16, rbp: u16, st: u8, amount: u64, wallet: u64|
                #[trigger] purchase_spec(m2, pbp, rbp, st, amount, wallet) == Err::<
                    (Market, crate::purchase::PurchaseReceipt),
                    TokenMillError,
                >(TokenMillError::MarketMigrated)
        }),
{
}

/// With enough buyback spend a market that is not yet migrated migrates
/// without override, given no external program.
pub proof fn lemma_threshold_allows_migration(
    m: Market,
    config: TokenMillConfig,
    total_buyback_lamports: u64,
    market_lamports: u64,
)
    requires
        !m.is_migrated,
        total_buyback_lamports >= MIGRATION_THRESHOLD_LAMPORTS,
    ensures
        migrate_spec(m, config, total_buyback_lamports, false, market_lamports, zero_address(), 0, None, None) is Ok,
{
}

} // verus!
