use vstd::prelude::*;

use crate::discount::{compute_discount_bp, discount_bp_spec};
use crate::error::TokenMillError;
use crate::fees::{compute_fee_breakdown, fee_breakdown_spec, FeeBreakdown};
use crate::pricing::{buy_exact_input, buy_exact_output, exact_input_spec, exact_output_spec};
use crate::state::{Market, MarketFees, TokenMillConfig};

verus! {

/// Swap-direction code: `amount` is the payment to spend.
pub const EXACT_INPUT: u8 = 0;

/// Swap-direction code: `amount` is the number of tokens to buy.
pub const EXACT_OUTPUT: u8 = 1;

/// What a purchase charges, mints and pays out.
///
/// Creator fees are accrued on the market and paid only at migration; the
/// protocol and referral fees are paid out of `quote_amount` right away.
#[derive(Clone, Copy, Debug)]
pub struct PurchaseReceipt {
    /// Payment taken from the buyer.
    pub quote_amount: u64,
    /// Tokens minted to the buyer.
    pub base_amount: u64,
    /// Wallet-tier discount applied to the protocol fee.
    pub discount_bp: u128,
    pub fees: FeeBreakdown,
}

/// Payment and token amount for a purchase on the market's curve.
pub open spec fn price_spec(m: Market, swap_type: u8, amount: u64) -> Result<(u64, u64), TokenMillError> {
    if swap_type == EXACT_OUTPUT {
        match exact_output_spec(m.base_price, m.width_scaled, m.total_supply, amount) {
            Ok(cost) => Ok((cost, amount)),
            Err(e) => Err(e),
        }
    } else if swap_type == EXACT_INPUT {
        exact_input_spec(m.base_price, m.width_scaled, m.total_supply, amount)
    } else {
        Err(TokenMillError::InvalidSwapType)
    }
}

/// Outcome of a purchase: the market after it and the receipt. A migrated
/// market refuses every purchase. Otherwise the amounts come from the curve,
/// the fees from the cascade with the buyer's wallet-tier discount; the
/// creator fee is accrued and the supply grows by the tokens minted. It fails
/// with `MathOverflow` when the protocol fee, the accrued creator fees or the
/// supply would not fit in 64 bits.
pub open spec fn purchase_spec(
    m: Market,
    protocol_bp: u16,
    referral_bp: u16,
    swap_type: u8,
    amount: u64,
    buyer_lamports: u64,
) -> Result<(Market, PurchaseReceipt), TokenMillError> {
    if m.is_migrated {
        Err(TokenMillError::MarketMigrated)
    } else {
        match price_spec(m, swap_type, amount) {
            Err(e) => Err(e),
            Ok((quote, base)) => {
                let d = discount_bp_spec(buyer_lamports as int) as u128;
                match fee_breakdown_spec(quote, protocol_bp, referral_bp, d, m.fees.creator_fee_share) {
                    Err(e) => Err(e),
                    Ok(f) => {
                        if f.protocol_fee_total > u64::MAX || m.fees.pending_creator_fees + f.creator_fee
                            > u64::MAX || m.total_supply + base > u64::MAX {
                            Err(TokenMillError::MathOverflow)
                        } else {
                            Ok(
                                (
                                    Market {
                                        total_supply: (m.total_supply + base) as u64,
                                        fees: MarketFees {
                                            pending_creator_fees: (m.fees.pending_creator_fees
                                                + f.creator_fee) as u64,
                                            ..m.fees
                                        },
                                        ..m
                                    },
                                    PurchaseReceipt {
                                        quote_amount: quote,
                                        base_amount: base,
                                        discount_bp: d,
                                        fees: f,
                                    },
                                ),
                            )
                        }
                    },
                }
            },
        }
    }
}

/// Prices a purchase on the market's curve at its current supply.
pub fn price_purchase(market: &Market, swap_type: u8, amount: u64) -> (r: Result<(u64, u64), TokenMillError>)
    ensures
        r == price_spec(*market, swap_type, amount),
{
    if swap_type == EXACT_OUTPUT {
        match buy_exact_output(market.base_price, market.width_scaled, market.total_supply, amount) {
            Ok(cost) => Ok((cost, amount)),
            Err(e) => Err(e),
        }
    } else if swap_type == EXACT_INPUT {
        buy_exact_input(market.base_price, market.width_scaled, market.total_supply, amount)
    } else {
        Err(TokenMillError::InvalidSwapType)
    }
}

/// Applies a purchase to the market: prices it, splits the fees, accrues the
/// creator fee and records the minted supply. The caller then collects
/// `quote_amount`, pays the protocol and referral fees and mints
/// `base_amount`. On failure the market is unchanged.
pub fn purchase(
    market: &mut Market,
    config: &TokenMillConfig,
    swap_type: u8,
    amount: u64,
    buyer_lamports: u64,
) -> (r: Result<PurchaseReceipt, TokenMillError>)
    ensures
        match r {
            Ok(receipt) => purchase_spec(
                *old(market),
                config.default_protocol_fee_share,
                config.referral_fee_share,
                swap_type,
                amount,
                buyer_lamports,
            ) == Ok::<(Market, PurchaseReceipt), TokenMillError>((*final(market), receipt)),
            Err(e) => purchase_spec(
                *old(market),
                config.default_protocol_fee_share,
                config.referral_fee_share,
                swap_type,
                amount,
                buyer_lamports,
            ) == Err::<(Market, PurchaseReceipt), TokenMillError>(e) && *final(market) == *old(market),
        },
{
    if market.is_migrated {
        return Err(TokenMillError::MarketMigrated);
    }
    let (quote_amount, base_amount) = match price_purchase(market, swap_type, amount) {
        Ok(p) => p,
        Err(e) => return Err(e),
    };
    let discount_bp = compute_discount_bp(buyer_lamports);
    let fees = match compute_fee_breakdown(
        quote_amount,
        config.default_protocol_fee_share,
        config.referral_fee_share,
        discount_bp,
        market.fees.creator_fee_share,
    ) {
        Ok(f) => f,
        Err(e) => return Err(e),
    };
    if fees.protocol_fee_total > u64::MAX as u128 {
        return Err(TokenMillError::MathOverflow);
    }
    if fees.creator_fee > (u64::MAX - market.fees.pending_creator_fees) as u128 {
        return Err(TokenMillError::MathOverflow);
    }
    let new_supply = match market.total_supply.checked_add(base_amount) {
        Some(v) => v,
        None => return Err(TokenMillError::MathOverflow),
    };
    market.fees.pending_creator_fees = market.fees.pending_creator_fees + fees.creator_fee as u64;
    market.total_supply = new_supply;
    Ok(PurchaseReceipt { quote_amount, base_amount, discount_bp, fees })
}

} // verus!
