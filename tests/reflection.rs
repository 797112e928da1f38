use token_mill::address::Address;
use token_mill::error::TokenMillError;
use token_mill::reflection::{claim_reflection, settle_reflection, MAX_EXCLUDED};
use token_mill::state::{
    ExclusionList, Market, MarketFees, ReflectionLedger, ReflectionState, TokenMillConfig,
};

const SCALE: u128 = 1_000_000_000_000;

fn addr(b: u8) -> Address {
    Address::new([b; 32])
}

fn market_with_supply(total_supply: u64) -> Market {
    Market {
        config: addr(1),
        base_token_mint: addr(2),
        bump: 255,
        base_price: 1000,
        width_scaled: 0,
        total_supply,
        fees: MarketFees { creator_fee_share: 0, pending_creator_fees: 0 },
        is_migrated: false,
        mint_revoked: false,
        freeze_revoked: false,
    }
}

fn state() -> ReflectionState {
    ReflectionState { bump: 1, total_reflection_pool: 0, per_share: 0, scale: SCALE, last_settlement: 0 }
}

fn cfg() -> TokenMillConfig {
    TokenMillConfig::new(addr(9), addr(8), 500, 1000)
}

#[test]
fn settlement_raises_index() {
    let mut s = state();
    settle_reflection(&cfg(), &addr(9), &mut s, &market_with_supply(1000), 10, 1_700_000_000).unwrap();
    assert_eq!(s.total_reflection_pool, 10);
    assert_eq!(s.per_share, 10 * SCALE / 1000);
    assert_eq!(s.last_settlement, 1_700_000_000);
    settle_reflection(&cfg(), &addr(9), &mut s, &market_with_supply(3), 1, 1_700_000_100).unwrap();
    assert_eq!(s.per_share, 10 * SCALE / 1000 + SCALE / 3);
}

#[test]
fn settlement_with_zero_supply_is_invalid_state() {
    let mut s = state();
    let r = settle_reflection(&cfg(), &addr(9), &mut s, &market_with_supply(0), 10, 5);
    assert_eq!(r, Err(TokenMillError::InvalidMarketState));
    assert_eq!(s.total_reflection_pool, 0);
    assert_eq!(s.last_settlement, 0);
}

#[test]
fn settlement_by_other_signer_is_invalid_authority() {
    let mut s = state();
    let r = settle_reflection(&cfg(), &addr(3), &mut s, &market_with_supply(10), 10, 5);
    assert_eq!(r, Err(TokenMillError::InvalidAuthority));
}

#[test]
fn settlement_overflow_leaves_state_unchanged() {
    let mut s = state();
    s.per_share = u128::MAX - 1;
    let r = settle_reflection(&cfg(), &addr(9), &mut s, &market_with_supply(1), 1, 5);
    assert_eq!(r, Err(TokenMillError::MathOverflow));
    assert_eq!(s.per_share, u128::MAX - 1);
    assert_eq!(s.total_reflection_pool, 0);
}

#[test]
fn index_never_decreases_over_settlements() {
    let mut s = state();
    let mut last = s.per_share;
    for (added, supply) in [(5u64, 100u64), (0, 7), (3, 0), (1, 1_000_000_000_000_000), (42, 9)] {
        let _ = settle_reflection(&cfg(), &addr(9), &mut s, &market_with_supply(supply), added, 1);
        assert!(s.per_share >= last);
        assert_eq!(s.scale, SCALE);
        last = s.per_share;
    }
}

#[test]
fn holder_claims_pro_rata_share() {
    let mut s = state();
    settle_reflection(&cfg(), &addr(9), &mut s, &market_with_supply(1000), 10, 1).unwrap();
    let excl = ExclusionList::new(1, addr(9));
    let mut ledger = ReflectionLedger { owner: addr(4), last_per_share: 0 };
    assert_eq!(claim_reflection(&excl, &addr(4), &s, &mut ledger, 250), Ok(2));
    assert_eq!(ledger.last_per_share, s.per_share);
    assert_eq!(claim_reflection(&excl, &addr(4), &s, &mut ledger, 250), Ok(0));
}

#[test]
fn dust_claim_keeps_ledger_position() {
    let mut s = state();
    settle_reflection(&cfg(), &addr(9), &mut s, &market_with_supply(1000), 1, 1).unwrap();
    let excl = ExclusionList::new(1, addr(9));
    let mut ledger = ReflectionLedger { owner: addr(4), last_per_share: 0 };
    assert_eq!(claim_reflection(&excl, &addr(4), &s, &mut ledger, 999), Ok(0));
    assert_eq!(ledger.last_per_share, 0);
    settle_reflection(&cfg(), &addr(9), &mut s, &market_with_supply(1000), 1, 2).unwrap();
    assert_eq!(claim_reflection(&excl, &addr(4), &s, &mut ledger, 999), Ok(1));
}

#[test]
fn excluded_holder_is_refused() {
    let mut s = state();
    settle_reflection(&cfg(), &addr(9), &mut s, &market_with_supply(10), 10, 1).unwrap();
    let mut excl = ExclusionList::new(1, addr(9));
    excl.update(true, &addr(4)).unwrap();
    let mut ledger = ReflectionLedger { owner: addr(4), last_per_share: 0 };
    assert_eq!(claim_reflection(&excl, &addr(4), &s, &mut ledger, 5), Err(TokenMillError::UnauthorizedMarket));
    assert_eq!(ledger.last_per_share, 0);
}

#[test]
fn claim_by_other_owner_is_invalid_authority() {
    let s = state();
    let excl = ExclusionList::new(1, addr(9));
    let mut ledger = ReflectionLedger { owner: addr(4), last_per_share: 0 };
    assert_eq!(claim_reflection(&excl, &addr(5), &s, &mut ledger, 5), Err(TokenMillError::InvalidAuthority));
}

#[test]
fn claim_with_zero_scale_is_math_overflow() {
    let mut s = state();
    s.scale = 0;
    s.per_share = 10;
    let excl = ExclusionList::new(1, addr(9));
    let mut ledger = ReflectionLedger { owner: addr(4), last_per_share: 0 };
    assert_eq!(claim_reflection(&excl, &addr(4), &s, &mut ledger, 5), Err(TokenMillError::MathOverflow));
}

#[test]
fn exclusion_list_add_remove() {
    let mut excl = ExclusionList::new(1, addr(9));
    excl.update(true, &addr(4)).unwrap();
    excl.update(true, &addr(4)).unwrap();
    excl.update(true, &addr(5)).unwrap();
    assert_eq!(excl.excluded.len(), 2);
    excl.update(false, &addr(4)).unwrap();
    assert_eq!(excl.excluded.len(), 1);
    assert!(excl.excluded[0] == addr(5));
}

#[test]
fn exclusion_list_full_is_refused() {
    let mut excl = ExclusionList::new(1, addr(9));
    for i in 0..MAX_EXCLUDED {
        let mut bytes = [0u8; 32];
        bytes[0] = i as u8;
        bytes[1] = 1;
        excl.update(true, &Address::new(bytes)).unwrap();
    }
    assert_eq!(excl.update(true, &addr(200)), Err(TokenMillError::InvalidMarket));
    assert_eq!(excl.excluded.len(), MAX_EXCLUDED);
}
