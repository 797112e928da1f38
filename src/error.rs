use vstd::prelude::*;

verus! {

/// Failures surfaced by the market operations. Every error aborts the whole
/// operation: functions that mutate state leave it untouched when they fail.
#[derive(Clone, Copy, Debug, PartialEq, Eq, Structural)]
pub enum TokenMillError {
    /// A checked arithmetic step overflowed or underflowed.
    MathOverflow,
    /// Pricing produced a zero token amount or a zero cost.
    InvalidAmount,
    /// A zero price would have been used as a divisor.
    InvalidPrice,
    /// The market or an auxiliary record is not in a state that allows the operation.
    InvalidMarketState,
    /// A purchase was attempted after the market migrated.
    MarketMigrated,
    /// The caller is not the configured authority.
    InvalidAuthority,
    /// The caller or a forwarding target failed an allow-list check.
    UnauthorizedMarket,
    /// The supplied market record is not the canonically derived one.
    InvalidMarketPda,
    /// The supplied referral record is not the canonically derived one.
    InvalidReferralPda,
    /// The swap-direction code is neither exact-input nor exact-output.
    InvalidSwapType,
    /// A bounded list is full.
    InvalidMarket,
    /// The market is bound to another configuration record.
    InvalidConfigAccount,
    /// The market is bound to another base mint.
    InvalidMintAccount,
}

} // verus!
