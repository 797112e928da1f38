use solana_program::pubkey::Pubkey;
use token_mill::address::Address;
use token_mill::error::TokenMillError;
use token_mill::merkle::verify_proof;
use token_mill::security::{
    assert_owner, assert_pda, check_market_accounts, check_market_pda, check_referral_pda, market_seeds,
};
use token_mill::state::{AirdropState, Market, MarketFees, ReferralAccount};

#[allow(deprecated)]
fn keccak(parts: &[&[u8]]) -> [u8; 32] {
    solana_program::keccak::hashv(parts).0
}

fn tree_of_two(a: &[u8; 32], b: &[u8; 32]) -> ([u8; 32], [u8; 32], [u8; 32]) {
    let ha = keccak(&[a]);
    let hb = keccak(&[b]);
    let root = keccak(&[&ha, &hb]);
    (ha, hb, root)
}

#[test]
fn merkle_proof_accepts_both_leaves() {
    let (a, b) = ([1u8; 32], [2u8; 32]);
    let (ha, hb, root) = tree_of_two(&a, &b);
    assert!(verify_proof(&a, &vec![hb], &root, 0));
    assert!(verify_proof(&b, &vec![ha], &root, 1));
    assert!(!verify_proof(&a, &vec![hb], &root, 1));
    assert!(!verify_proof(&b, &vec![hb], &root, 1));
}

#[test]
fn merkle_proof_hashes_the_leaf() {
    let leaf = [3u8; 32];
    assert!(!verify_proof(&leaf, &vec![], &leaf, 0));
    assert!(verify_proof(&leaf, &vec![], &keccak(&[&leaf]), 0));
}

#[test]
fn airdrop_claim_sets_one_bit() {
    let (a, b) = ([1u8; 32], [2u8; 32]);
    let (ha, hb, root) = tree_of_two(&a, &b);
    let mut s = AirdropState::new(1, root, 0, 2);
    assert_eq!(s.claimed_bitmap, vec![0, 0]);
    s.claim(100, 1, &b, &vec![ha]).unwrap();
    assert_eq!(s.claimed_bitmap, vec![2, 0]);
    assert_eq!(s.claim(100, 1, &b, &vec![ha]), Err(TokenMillError::InvalidMarketState));
    s.claim(100, 0, &a, &vec![hb]).unwrap();
    assert_eq!(s.claimed_bitmap, vec![3, 0]);
}

#[test]
fn airdrop_claim_rejects_bad_proof_range_and_expiry() {
    let (a, b) = ([1u8; 32], [2u8; 32]);
    let (_ha, hb, root) = tree_of_two(&a, &b);
    let mut s = AirdropState::new(1, root, 0, 0);
    assert_eq!(s.claim(100, 0, &a, &vec![hb]), Err(TokenMillError::InvalidMarketState));
    let mut s = AirdropState::new(1, root, 50, 1);
    assert_eq!(s.claim(100, 0, &a, &vec![hb]), Err(TokenMillError::InvalidMarketState));
    assert_eq!(s.claim(40, 0, &b, &vec![hb]), Err(TokenMillError::InvalidMarketState));
    s.claim(40, 0, &a, &vec![hb]).unwrap();
    assert_eq!(s.claimed_bitmap, vec![1]);
}

#[test]
fn airdrop_expiry_burns_three_quarters() {
    let s = AirdropState::new(1, [0u8; 32], 50, 1);
    let p = s.expiry_plan(51, 101, &None, &Address::new([0u8; 32]), 0).unwrap();
    assert_eq!((p.burn_amount, p.swap_amount, p.forward_swap), (75, 26, false));
    assert_eq!(s.expiry_plan(50, 101, &None, &Address::new([0u8; 32]), 0), Err(TokenMillError::InvalidMarketState));
    assert_eq!(s.expiry_plan(51, u64::MAX, &None, &Address::new([0u8; 32]), 0), Err(TokenMillError::MathOverflow));
    let venue = Address::new([7u8; 32]);
    assert_eq!(s.expiry_plan(51, 100, &Some(vec![1]), &venue, 0), Err(TokenMillError::InvalidMarketState));
    assert!(s.expiry_plan(51, 100, &Some(vec![1]), &venue, 2).unwrap().forward_swap);
    let never = AirdropState::new(1, [0u8; 32], 0, 1);
    assert_eq!(never.expiry_plan(51, 100, &None, &venue, 0), Err(TokenMillError::InvalidMarketState));
}

#[test]
fn pda_check_matches_derivation() {
    let program = Pubkey::new_from_array([11u8; 32]);
    let seeds: Vec<Vec<u8>> = vec![b"exclusion".to_vec(), vec![4u8; 32]];
    let slices: Vec<&[u8]> = seeds.iter().map(|s| s.as_slice()).collect();
    let (expected, _) = Pubkey::find_program_address(&slices, &program);
    let program_id = Address::new([11u8; 32]);
    assert_eq!(assert_pda(&seeds, &program_id, &Address::new(expected.to_bytes())), Ok(()));
    assert_eq!(assert_pda(&seeds, &program_id, &Address::new([4u8; 32])), Err(TokenMillError::InvalidMarketPda));
}

#[test]
fn market_pda_needs_address_and_bump() {
    let program = Pubkey::new_from_array([12u8; 32]);
    let mint = [5u8; 32];
    let (key, bump) = Pubkey::find_program_address(&[b"market", &mint], &program);
    let seeds = market_seeds(&Address::new(mint));
    assert_eq!(seeds, vec![b"market".to_vec(), mint.to_vec()]);
    let mut m = Market {
        config: Address::new([1u8; 32]),
        base_token_mint: Address::new(mint),
        bump,
        base_price: 1,
        width_scaled: 0,
        total_supply: 0,
        fees: MarketFees { creator_fee_share: 0, pending_creator_fees: 0 },
        is_migrated: false,
        mint_revoked: false,
        freeze_revoked: false,
    };
    let program_id = Address::new([12u8; 32]);
    let market_key = Address::new(key.to_bytes());
    assert_eq!(check_market_pda(&m, &Address::new(mint), &program_id, &market_key), Ok(()));
    m.bump = bump.wrapping_sub(1);
    assert_eq!(check_market_pda(&m, &Address::new(mint), &program_id, &market_key), Err(TokenMillError::InvalidMarketPda));
}

#[test]
fn owner_check() {
    assert_eq!(assert_owner(&Address::new([1u8; 32]), &Address::new([1u8; 32])), Ok(()));
    assert_eq!(assert_owner(&Address::new([1u8; 32]), &Address::new([2u8; 32])), Err(TokenMillError::InvalidAuthority));
}

#[test]
fn referral_pda_needs_address_and_bump() {
    let program = Pubkey::new_from_array([13u8; 32]);
    let (config, owner) = ([1u8; 32], [2u8; 32]);
    let (key, bump) = Pubkey::find_program_address(&[b"referral", &config, &owner], &program);
    let mut acct = ReferralAccount::new(bump, Address::new(config), Address::new([3u8; 32]), Address::new(owner));
    let program_id = Address::new([13u8; 32]);
    assert_eq!(check_referral_pda(&acct, &program_id, &Address::new(key.to_bytes())), Ok(()));
    assert_eq!(
        check_referral_pda(&acct, &program_id, &Address::new(owner)),
        Err(TokenMillError::InvalidReferralPda)
    );
    acct.bump = bump.wrapping_sub(1);
    assert_eq!(
        check_referral_pda(&acct, &program_id, &Address::new(key.to_bytes())),
        Err(TokenMillError::InvalidReferralPda)
    );
}

#[test]
fn market_bound_to_config_and_mint() {
    let m = Market {
        config: Address::new([1u8; 32]),
        base_token_mint: Address::new([2u8; 32]),
        bump: 0,
        base_price: 1,
        width_scaled: 0,
        total_supply: 0,
        fees: MarketFees { creator_fee_share: 0, pending_creator_fees: 0 },
        is_migrated: false,
        mint_revoked: false,
        freeze_revoked: false,
    };
    let (c, b) = (Address::new([1u8; 32]), Address::new([2u8; 32]));
    assert_eq!(check_market_accounts(&m, &c, &b), Ok(()));
    assert_eq!(check_market_accounts(&m, &b, &b), Err(TokenMillError::InvalidConfigAccount));
    assert_eq!(check_market_accounts(&m, &c, &c), Err(TokenMillError::InvalidMintAccount));
}
