use vstd::prelude::*;
use vstd::arithmetic::div_mod::*;
use vstd::arithmetic::mul::*;

use crate::error::TokenMillError;

verus! {

/// Basis points in a whole.
pub const BP_DENOM: u128 = 10_000;

/// How one payment splits into fees, in the order they are computed.
#[derive(Clone, Copy, Debug, PartialEq, Eq, Structural)]
pub struct FeeBreakdown {
    pub protocol_fee_total: u128,
    pub discount_amount: u128,
    pub protocol_fee_after_discount: u128,
    pub referral_fee: u128,
    pub protocol_fee_net: u128,
    pub creator_fee: u128,
}

/// `amount * bp / 10000`, rounded down.
pub open spec fn bp_share(amount: int, bp: int) -> int {
    amount * bp / 10000
}

/// The fee cascade: protocol fee from the gross payment, the wallet discount
/// off the protocol fee, the referral share of what remains, and the creator
/// fee from the gross payment. It fails when the discount step overflows 128
/// bits or a subtraction would go below zero.
pub open spec fn fee_breakdown_spec(
    quote_amount: u64,
    protocol_bp: u16,
    referral_bp: u16,
    discount_bp: u128,
    creator_bp: u16,
) -> Result<FeeBreakdown, TokenMillError> {
    let total = bp_share(quote_amount as int, protocol_bp as int);
    let discount = bp_share(total, discount_bp as int);
    let after = total - discount;
    let referral = bp_share(after, referral_bp as int);
    let net = after - referral;
    let creator = bp_share(quote_amount as int, creator_bp as int);
    if total * discount_bp > u128::MAX || discount > total || referral > after {
        Err(TokenMillError::MathOverflow)
    } else {
        Ok(
            FeeBreakdown {
                protocol_fee_total: total as u128,
                discount_amount: discount as u128,
                protocol_fee_after_discount: after as u128,
                referral_fee: referral as u128,
                protocol_fee_net: net as u128,
                creator_fee: creator as u128,
            },
        )
    }
}

proof fn lemma_share_bounds(amount: int, bp: int)
    requires
        0 <= amount <= u64::MAX,
        0 <= bp <= u16::MAX,
    ensures
        0 <= amount * bp <= u64::MAX * u16::MAX,
        0 <= bp_share(amount, bp) <= amount * bp,
{
    lemma_mul_upper_bound(amount, u64::MAX as int, bp, u16::MAX as int);
    lemma_mul_nonnegative(amount, bp);
    lemma_div_pos_is_pos(amount * bp, 10000);
    lemma_div_is_ordered_by_denominator(amount * bp, 1, 10000);
}

/// A share of at most 10000 basis points never exceeds the amount.
proof fn lemma_share_within(amount: int, bp: int)
    requires
        amount >= 0,
        0 <= bp <= 10000,
    ensures
        0 <= bp_share(amount, bp) <= amount,
{
    lemma_mul_inequality(bp, 10000, amount);
    lemma_mul_is_commutative(bp, amount);
    lemma_mul_nonnegative(amount, bp);
    lemma_div_pos_is_pos(amount * bp, 10000);
    lemma_div_is_ordered(amount * bp, amount * 10000, 10000);
    lemma_div_multiples_vanish(amount, 10000);
    lemma_mul_is_commutative(amount, 10000);
}

/// Splits `quote_amount` into protocol, discount, referral and creator parts.
pub fn compute_fee_breakdown(
    quote_amount: u64,
    protocol_bp: u16,
    referral_bp: u16,
    discount_bp: u128,
    creator_bp: u16,
) -> (r: Result<FeeBreakdown, TokenMillError>)
    ensures
        r == fee_breakdown_spec(quote_amount, protocol_bp, referral_bp, discount_bp, creator_bp),
{
    let quote = quote_amount as u128;
    proof {
        lemma_share_bounds(quote_amount as int, protocol_bp as int);
        lemma_share_bounds(quote_amount as int, creator_bp as int);
        assert(u64::MAX * u16::MAX <= u128::MAX) by (nonlinear_arith);
    }
    let protocol_fee_total = quote * (protocol_bp as u128) / BP_DENOM;
    let discount_amount = match protocol_fee_total.checked_mul(discount_bp) {
        Some(v) => v / BP_DENOM,
        None => return Err(TokenMillError::MathOverflow),
    };
    let after = match protocol_fee_total.checked_sub(discount_amount) {
        Some(v) => v,
        None => return Err(TokenMillError::MathOverflow),
    };
    proof {
        lemma_div_is_ordered_by_denominator(quote * protocol_bp as int, 1, 10000);
        lemma_mul_upper_bound(after as int, u64::MAX * u16::MAX, referral_bp as int, u16::MAX as int);
        assert(u64::MAX * u16::MAX * u16::MAX <= u128::MAX) by (nonlinear_arith);
    }
    let referral_fee = after * (referral_bp as u128) / BP_DENOM;
    let protocol_fee_net = match after.checked_sub(referral_fee) {
        Some(v) => v,
        None => return Err(TokenMillError::MathOverflow),
    };
    let creator_fee = quote * (creator_bp as u128) / BP_DENOM;
    Ok(
        FeeBreakdown {
            protocol_fee_total,
            discount_amount,
            protocol_fee_after_discount: after,
            referral_fee,
            protocol_fee_net,
            creator_fee,
        },
    )
}

/// The net protocol fee, the referral fee and the discount add up to the
/// protocol fee, which is the protocol share of the payment; what is paid out
/// of it never exceeds that share, and equals it when there is no discount.
pub proof fn lemma_fee_decomposition(
    quote_amount: u64,
    protocol_bp: u16,
    referral_bp: u16,
    discount_bp: u128,
    creator_bp: u16,
)
    requires
        fee_breakdown_spec(quote_amount, protocol_bp, referral_bp, discount_bp, creator_bp) is Ok,
    ensures
        ({
            let f = fee_breakdown_spec(quote_amount, protocol_bp, referral_bp, discount_bp, creator_bp)->Ok_0;
            &&& f.protocol_fee_net + f.referral_fee + f.discount_amount == f.protocol_fee_total
            &&& f.protocol_fee_total == bp_share(quote_amount as int, protocol_bp as int)
            &&& f.protocol_fee_net + f.referral_fee <= bp_share(quote_amount as int, protocol_bp as int)
            &&& discount_bp == 0 ==> f.discount_amount == 0 && f.protocol_fee_net + f.referral_fee
                == bp_share(quote_amount as int, protocol_bp as int)
        }),
{
    let total = bp_share(quote_amount as int, protocol_bp as int);
    lemma_share_bounds(quote_amount as int, protocol_bp as int);
    lemma_div_is_ordered_by_denominator(quote_amount * protocol_bp, 1, 10000);
    assert(u64::MAX * u16::MAX <= u128::MAX) by (nonlinear_arith);
    lemma_mul_nonnegative(total, discount_bp as int);
    lemma_div_pos_is_pos(total * discount_bp, 10000);
    let after = total - bp_share(total, discount_bp as int);
    lemma_mul_nonnegative(after, referral_bp as int);
    lemma_div_pos_is_pos(after * referral_bp, 10000);
    if discount_bp == 0 {
        lemma_mul_basics(total);
    }
}

/// With discount and referral shares of at most 10000 basis points the
/// cascade always succeeds.
pub proof fn lemma_fee_breakdown_succeeds(
    quote_amount: u64,
    protocol_bp: u16,
    referral_bp: u16,
    discount_bp: u128,
    creator_bp: u16,
)
    requires
        discount_bp <= 10000,
        referral_bp <= 10000,
    ensures
        fee_breakdown_spec(quote_amount, protocol_bp, referral_bp, discount_bp, creator_bp) is Ok,
{
    let total = bp_share(quote_amount as int, protocol_bp as int);
    lemma_share_bounds(quote_amount as int, protocol_bp as int);
    lemma_div_is_ordered_by_denominator(quote_amount * protocol_bp, 1, 10000);
    lemma_mul_upper_bound(total, u64::MAX * u16::MAX, discount_bp as int, 10000);
    assert(u64::MAX * u16::MAX * 10000 <= u128::MAX) by (nonlinear_arith);
    lemma_share_within(total, discount_bp as int);
    lemma_share_within(total - bp_share(total, discount_bp as int), referral_bp as int);
}

/// Where a referral fee can be paid, in order of preference.
#[derive(Clone, Copy, Debug, PartialEq, Eq, Structural)]
pub enum ReferralRoute {
    /// Credit the referral record, from which the referrer claims later.
    ReferralAccount,
    /// Pay the referrer's own account directly.
    Referrer,
    /// Pay the protocol fee recipient.
    ProtocolRecipient,
}

/// The routes available for a referral fee, most preferred first; the
/// protocol recipient is always last.
pub open spec fn referral_routes(has_referral_account: bool, has_referrer: bool) -> Seq<ReferralRoute> {
    let first: Seq<ReferralRoute> = if has_referral_account {
        seq![ReferralRoute::ReferralAccount]
    } else {
        Seq::empty()
    };
    let second: Seq<ReferralRoute> = if has_referrer {
        seq![ReferralRoute::Referrer]
    } else {
        Seq::empty()
    };
    first + second + seq![ReferralRoute::ProtocolRecipient]
}

/// The entry that follows the first occurrence of `f` in `routes`, if any.
pub open spec fn route_following(routes: Seq<ReferralRoute>, f: ReferralRoute) -> Option<ReferralRoute>
    decreases routes.len(),
{
    if routes.len() < 2 {
        None
    } else if routes[0] == f {
        Some(routes[1])
    } else {
        route_following(routes.drop_first(), f)
    }
}

/// The route to try after `failed` (or the first route when nothing failed
/// yet): the next available one in preference order, or none when the
/// protocol recipient itself failed and the payment must abort.
pub open spec fn referral_route_after_spec(
    has_referral_account: bool,
    has_referrer: bool,
    failed: Option<ReferralRoute>,
) -> Option<ReferralRoute> {
    let routes = referral_routes(has_referral_account, has_referrer);
    match failed {
        None => Some(routes[0]),
        Some(f) => route_following(routes, f),
    }
}

/// Next payout route for a referral fee.
pub fn referral_route_after(has_referral_account: bool, has_referrer: bool, failed: Option<ReferralRoute>) -> (r:
    Option<ReferralRoute>)
    ensures
        r == referral_route_after_spec(has_referral_account, has_referrer, failed),
{
    let ghost routes = referral_routes(has_referral_account, has_referrer);
    proof {
        let a = ReferralRoute::ReferralAccount;
        let b = ReferralRoute::Referrer;
        let c = ReferralRoute::ProtocolRecipient;
        if has_referral_account && has_referrer {
            assert(routes =~= seq![a, b, c]);
            assert(routes.drop_first() =~= seq![b, c]);
            assert(routes.drop_first().drop_first() =~= seq![c]);
        } else if has_referral_account {
            assert(routes =~= seq![a, c]);
            assert(routes.drop_first() =~= seq![c]);
        } else if has_referrer {
            assert(routes =~= seq![b, c]);
            assert(routes.drop_first() =~= seq![c]);
        } else {
            assert(routes =~= seq![c]);
        }
        reveal_with_fuel(route_following, 3);
    }
    match failed {
        None => {
            if has_referral_account {
                Some(ReferralRoute::ReferralAccount)
            } else if has_referrer {
                Some(ReferralRoute::Referrer)
            } else {
                Some(ReferralRoute::ProtocolRecipient)
            }
        },
        Some(ReferralRoute::ReferralAccount) => {
            if !has_referral_account {
                None
            } else if has_referrer {
                Some(ReferralRoute::Referrer)
            } else {
                Some(ReferralRoute::ProtocolRecipient)
            }
        },
        Some(ReferralRoute::Referrer) => {
            if has_referrer {
                Some(ReferralRoute::ProtocolRecipient)
            } else {
                None
            }
        },
        Some(ReferralRoute::ProtocolRecipient) => None,
    }
}

} // verus!
