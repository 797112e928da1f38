use token_mill::error::TokenMillError;
use token_mill::fees::{compute_fee_breakdown, referral_route_after, FeeBreakdown, ReferralRoute};

#[test]
fn fee_cascade_example() {
    let f = compute_fee_breakdown(100_000, 500, 1000, 1000, 100).unwrap();
    assert_eq!(
        f,
        FeeBreakdown {
            protocol_fee_total: 5000,
            discount_amount: 500,
            protocol_fee_after_discount: 4500,
            referral_fee: 450,
            protocol_fee_net: 4050,
            creator_fee: 1000,
        }
    );
    assert_eq!(f.protocol_fee_net + f.referral_fee + f.discount_amount, f.protocol_fee_total);
}

#[test]
fn fee_cascade_without_discount_pays_whole_protocol_fee() {
    let f = compute_fee_breakdown(123_457, 250, 3000, 0, 0).unwrap();
    assert_eq!(f.protocol_fee_total, 123_457 * 250 / 10_000);
    assert_eq!(f.discount_amount, 0);
    assert_eq!(f.protocol_fee_net + f.referral_fee, f.protocol_fee_total);
    assert_eq!(f.creator_fee, 0);
}

#[test]
fn fee_cascade_rounds_each_step_down() {
    let f = compute_fee_breakdown(999, 333, 777, 2500, 55).unwrap();
    assert_eq!(f.protocol_fee_total, 33);
    assert_eq!(f.discount_amount, 8);
    assert_eq!(f.protocol_fee_after_discount, 25);
    assert_eq!(f.referral_fee, 1);
    assert_eq!(f.protocol_fee_net, 24);
    assert_eq!(f.creator_fee, 5);
}

#[test]
fn oversized_discount_is_math_overflow() {
    assert_eq!(compute_fee_breakdown(100_000, 500, 1000, 30_000, 0), Err(TokenMillError::MathOverflow));
}

#[test]
fn oversized_referral_share_is_math_overflow() {
    assert_eq!(compute_fee_breakdown(100_000, 500, 30_000, 0, 0), Err(TokenMillError::MathOverflow));
}

#[test]
fn discount_product_overflow_is_math_overflow() {
    assert_eq!(compute_fee_breakdown(u64::MAX, 10_000, 0, u128::MAX, 0), Err(TokenMillError::MathOverflow));
}

#[test]
fn referral_routes_prefer_referral_account() {
    assert_eq!(referral_route_after(true, true, None), Some(ReferralRoute::ReferralAccount));
    assert_eq!(
        referral_route_after(true, true, Some(ReferralRoute::ReferralAccount)),
        Some(ReferralRoute::Referrer)
    );
    assert_eq!(
        referral_route_after(true, true, Some(ReferralRoute::Referrer)),
        Some(ReferralRoute::ProtocolRecipient)
    );
    assert_eq!(referral_route_after(true, true, Some(ReferralRoute::ProtocolRecipient)), None);
}

#[test]
fn referral_routes_fall_back_to_protocol() {
    assert_eq!(referral_route_after(false, true, None), Some(ReferralRoute::Referrer));
    assert_eq!(referral_route_after(false, false, None), Some(ReferralRoute::ProtocolRecipient));
    assert_eq!(
        referral_route_after(true, false, Some(ReferralRoute::ReferralAccount)),
        Some(ReferralRoute::ProtocolRecipient)
    );
    assert_eq!(referral_route_after(false, false, Some(ReferralRoute::ProtocolRecipient)), None);
}
