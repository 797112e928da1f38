use vstd::prelude::*;

verus! {

/// Lamports in one native-currency unit.
pub const ONE_SOL: u64 = 1_000_000_000;

/// Discount on the protocol fee, in basis points, for a wallet holding
/// `wallet_lamports`: 5000 from 50 units, 2500 from 10, 1000 from 1, else 0.
pub open spec fn discount_bp_spec(wallet_lamports: int) -> int {
    if wallet_lamports >= 50 * ONE_SOL {
        5000
    } else if wallet_lamports >= 10 * ONE_SOL {
        2500
    } else if wallet_lamports >= ONE_SOL {
        1000
    } else {
        0
    }
}

/// Wallet-tier discount in basis points for the purchaser's balance.
pub fn compute_discount_bp(wallet_lamports: u64) -> (r: u128)
    ensures
        r == discount_bp_spec(wallet_lamports as int),
        r <= 5000,
{
    if wallet_lamports >= 50 * ONE_SOL {
        return 5000;
    }
    if wallet_lamports >= 10 * ONE_SOL {
        return 2500;
    }
    if wallet_lamports >= ONE_SOL {
        return 1000;
    }
    0
}

/// The discount never shrinks as the wallet balance grows.
pub proof fn lemma_discount_monotone(a: int, b: int)
    requires
        a <= b,
    ensures
        discount_bp_spec(a) <= discount_bp_spec(b),
{
}

/// The discount is constant between consecutive tier thresholds.
pub proof fn lemma_discount_tiers(w: int)
    ensures
        w < ONE_SOL ==> discount_bp_spec(w) == 0,
        ONE_SOL <= w < 10 * ONE_SOL ==> discount_bp_spec(w) == 1000,
        10 * ONE_SOL <= w < 50 * ONE_SOL ==> discount_bp_spec(w) == 2500,
        50 * ONE_SOL <= w ==> discount_bp_spec(w) == 5000,
{
}

} // verus!
