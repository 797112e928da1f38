use token_mill::discount::{compute_discount_bp, ONE_SOL};
use token_mill::error::TokenMillError;
use token_mill::pricing::{buy_exact_input, buy_exact_output, integer_sqrt};

#[test]
fn flat_exact_input_buys_five_tokens() {
    assert_eq!(buy_exact_input(1000, 0, 0, 5000), Ok((5000, 5)));
}

#[test]
fn flat_exact_input_charges_only_whole_tokens() {
    assert_eq!(buy_exact_input(1000, 0, 0, 5999), Ok((5000, 5)));
}

#[test]
fn flat_exact_input_below_one_token_is_invalid_amount() {
    assert_eq!(buy_exact_input(1000, 0, 0, 999), Err(TokenMillError::InvalidAmount));
}

#[test]
fn flat_zero_price_is_invalid_price() {
    assert_eq!(buy_exact_input(0, 0, 7, 5000), Err(TokenMillError::InvalidPrice));
}

#[test]
fn exact_input_zero_quote_is_invalid_amount() {
    assert_eq!(buy_exact_input(1000, 3, 0, 0), Err(TokenMillError::InvalidAmount));
}

#[test]
fn exact_output_trapezoid_cost() {
    // 1000 * 5 + 2 * (2 * 10 * 5 + 25) / 2
    assert_eq!(buy_exact_output(1000, 2, 10, 5), Ok(5125));
}

#[test]
fn exact_output_rounds_slope_term_down() {
    // 10 * 3 + 1 * 9 / 2
    assert_eq!(buy_exact_output(10, 1, 0, 3), Ok(34));
}

#[test]
fn exact_output_zero_tokens_is_invalid_amount() {
    assert_eq!(buy_exact_output(1000, 2, 10, 0), Err(TokenMillError::InvalidAmount));
}

#[test]
fn exact_output_zero_cost_is_invalid_amount() {
    assert_eq!(buy_exact_output(0, 1, 0, 1), Err(TokenMillError::InvalidAmount));
}

#[test]
fn exact_output_beyond_u64_is_math_overflow() {
    assert_eq!(buy_exact_output(u64::MAX, 0, 0, 2), Err(TokenMillError::MathOverflow));
    assert_eq!(buy_exact_output(1, u64::MAX, u64::MAX, u64::MAX), Err(TokenMillError::MathOverflow));
}

#[test]
fn round_trip_on_even_slope_term_is_exact() {
    let cost = buy_exact_output(1000, 2, 10, 5).unwrap();
    assert_eq!(buy_exact_input(1000, 2, 10, cost), Ok((cost, 5)));
}

#[test]
fn round_trip_on_odd_slope_term_loses_one_token() {
    let cost = buy_exact_output(10, 1, 0, 3).unwrap();
    assert_eq!(cost, 34);
    // twice the exact cost of 3 tokens is 69 > 68, so only 2 fit: 10 * 2 + 4 / 2
    assert_eq!(buy_exact_input(10, 1, 0, cost), Ok((22, 2)));
}

#[test]
fn round_trip_on_flat_curve_is_exact() {
    let cost = buy_exact_output(777, 0, 123, 41).unwrap();
    assert_eq!(cost, 777 * 41);
    assert_eq!(buy_exact_input(777, 0, 123, cost), Ok((cost, 41)));
}

#[test]
fn exact_input_never_charges_more_than_quote() {
    for quote in 1u64..400 {
        if let Ok((cost, q)) = buy_exact_input(3, 2, 5, quote) {
            assert!(cost <= quote);
            assert!(q > 0);
            let next = buy_exact_output(3, 2, 5, q + 1).unwrap();
            assert!(next >= quote);
        }
    }
}

#[test]
fn exact_input_discriminant_overflow_is_math_overflow() {
    assert_eq!(buy_exact_input(1, u64::MAX, u64::MAX, 1), Err(TokenMillError::MathOverflow));
}

#[test]
fn exact_input_sloped_too_little_is_invalid_amount() {
    assert_eq!(buy_exact_input(100, 1, 0, 50), Err(TokenMillError::InvalidAmount));
}

#[test]
fn integer_sqrt_small_values() {
    let expected = [0u128, 1, 1, 1, 2, 2, 2, 2, 2, 3, 3];
    for (n, r) in expected.iter().enumerate() {
        assert_eq!(integer_sqrt(n as u128), *r);
    }
    assert_eq!(integer_sqrt(15), 3);
    assert_eq!(integer_sqrt(16), 4);
    assert_eq!(integer_sqrt(17), 4);
}

#[test]
fn integer_sqrt_extremes() {
    assert_eq!(integer_sqrt(u128::MAX), u64::MAX as u128);
    let r = 1u128 << 60;
    assert_eq!(integer_sqrt(r * r), r);
    assert_eq!(integer_sqrt(r * r - 1), r - 1);
}

#[test]
fn discount_tiers() {
    assert_eq!(compute_discount_bp(0), 0);
    assert_eq!(compute_discount_bp(ONE_SOL - 1), 0);
    assert_eq!(compute_discount_bp(ONE_SOL), 1000);
    assert_eq!(compute_discount_bp(10 * ONE_SOL - 1), 1000);
    assert_eq!(compute_discount_bp(10 * ONE_SOL), 2500);
    assert_eq!(compute_discount_bp(50 * ONE_SOL - 1), 2500);
    assert_eq!(compute_discount_bp(50 * ONE_SOL), 5000);
    assert_eq!(compute_discount_bp(u64::MAX), 5000);
}

#[test]
fn discount_is_monotone_over_a_sweep() {
    let mut last = 0u128;
    let mut w = 0u64;
    while w < 60 * ONE_SOL {
        let d = compute_discount_bp(w);
        assert!(d >= last);
        last = d;
        w += ONE_SOL / 4;
    }
}

#[test]
fn zero_base_price_with_slope_is_priced_by_slope_alone() {
    // 0 * 1 + 2 * (2 * 10 * 1 + 1) / 2
    assert_eq!(buy_exact_output(0, 2, 10, 1), Ok(21));
    assert_eq!(buy_exact_input(0, 2, 10, 21), Ok((21, 1)));
}
