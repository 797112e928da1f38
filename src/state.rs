use vstd::prelude::*;

use crate::address::Address;

verus! {

/// Fee settings and accruals of one market.
#[derive(Clone, Copy, Debug)]
pub struct MarketFees {
    /// Creator share of each payment, in basis points.
    pub creator_fee_share: u16,
    /// Creator fees accrued by purchases and not yet paid out.
    pub pending_creator_fees: u64,
}

/// The ledger record of one tradable asset.
#[derive(Clone, Copy, Debug)]
pub struct Market {
    pub config: Address,
    pub base_token_mint: Address,
    pub bump: u8,
    /// Price of a token at supply zero.
    pub base_price: u64,
    /// Slope of the price line per token.
    pub width_scaled: u64,
    /// Tokens minted so far.
    pub total_supply: u64,
    pub fees: MarketFees,
    pub is_migrated: bool,
    pub mint_revoked: bool,
    pub freeze_revoked: bool,
}

/// Platform-wide configuration.
#[derive(Clone, Debug)]
pub struct TokenMillConfig {
    pub authority: Address,
    pub pending_authority: Option<Address>,
    pub protocol_fee_recipient: Address,
    /// Protocol share of each payment, in basis points.
    pub default_protocol_fee_share: u16,
    /// Referral share of the discounted protocol fee, in basis points.
    pub referral_fee_share: u16,
    /// Programs that may receive forwarded instructions.
    pub cpi_whitelist: Vec<Address>,
    /// Largest number of auxiliary accounts a forwarded instruction may carry.
    pub max_forwarded_accounts: u8,
}

/// The market-wide dividend index.
#[derive(Clone, Copy, Debug)]
pub struct ReflectionState {
    pub bump: u8,
    /// Tokens ever added to the reward pool.
    pub total_reflection_pool: u64,
    /// Reward per unit of supply, scaled by `scale`.
    pub per_share: u128,
    /// Fixed-point scale of `per_share`.
    pub scale: u128,
    /// Time of the last manual settlement.
    pub last_settlement: i64,
}

/// One holder's position in the dividend index.
#[derive(Clone, Copy, Debug)]
pub struct ReflectionLedger {
    pub owner: Address,
    /// Value of the index at the holder's last claim.
    pub last_per_share: u128,
}

/// Cumulative buyback spend and proceeds.
#[derive(Clone, Copy, Debug)]
pub struct BuybackState {
    pub bump: u8,
    pub total_buyback_lamports: u64,
    pub total_buyback_tokens: u64,
}

/// Holders denied reflection claims.
#[derive(Clone, Debug)]
pub struct ExclusionList {
    pub bump: u8,
    pub admin: Address,
    pub excluded: Vec<Address>,
}

/// Credit record of a referrer.
#[derive(Clone, Copy, Debug)]
pub struct ReferralAccount {
    pub bump: u8,
    pub config: Address,
    pub referrer: Address,
    pub owner: Address,
    /// Referral fees credited and not yet claimed, in lamports.
    pub pending_lamports: u64,
}

/// A merkle-gated airdrop and the indices already claimed.
#[derive(Clone, Debug)]
pub struct AirdropState {
    pub bump: u8,
    pub root: [u8; 32],
    /// Unix time after which claims stop; zero or less means no expiry.
    pub expiry: i64,
    /// One bit per claim index.
    pub claimed_bitmap: Vec<u8>,
}

} // verus!
