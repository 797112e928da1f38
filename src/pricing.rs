use vstd::prelude::*;
use vstd::arithmetic::div_mod::*;
use vstd::arithmetic::mul::*;

use crate::error::TokenMillError;

verus! {

/// `r` is the integer square root of `n`, rounded down.
pub open spec fn is_floor_sqrt(n: int, r: int) -> bool {
    0 <= r && r * r <= n && n < (r + 1) * (r + 1)
}

/// One Newton step never drops below the floor of the root.
proof fn lemma_newton_step_stays_above(n: int, x0: int)
    requires
        n >= 0,
        x0 >= 1,
    ensures
        n < ((x0 + n / x0) / 2 + 1) * ((x0 + n / x0) / 2 + 1),
{
    let s = n / x0;
    let x1 = (x0 + s) / 2;
    lemma_fundamental_div_mod(n, x0);
    lemma_mod_pos_bound(n, x0);
    lemma_div_pos_is_pos(n, x0);
    assert(n < x0 * (s + 1)) by (nonlinear_arith)
        requires
            n == x0 * s + n % x0,
            n % x0 < x0,
    ;
    assert(2 * x1 + 1 >= x0 + s);
    let r = x1 + 1;
    assert(x0 * (s + 1) <= r * r) by (nonlinear_arith)
        requires
            x0 >= 1,
            s >= 0,
            s + 1 <= 2 * r - x0,
    {
        assert(x0 * (s + 1) <= x0 * (2 * r - x0));
        assert(r * r - x0 * (2 * r - x0) == (r - x0) * (r - x0));
    }
}

/// When a Newton step does not decrease, the current estimate is at most the root.
proof fn lemma_newton_fixpoint(n: int, x0: int)
    requires
        n >= 0,
        x0 >= 1,
        (x0 + n / x0) / 2 >= x0,
    ensures
        x0 * x0 <= n,
{
    if x0 * x0 > n {
        lemma_div_is_strictly_smaller_than(n, x0);
    }
}

proof fn lemma_div_is_strictly_smaller_than(n: int, x0: int)
    requires
        n >= 0,
        x0 >= 1,
        x0 * x0 > n,
    ensures
        n / x0 < x0,
{
    lemma_fundamental_div_mod(n, x0);
    lemma_mod_pos_bound(n, x0);
    lemma_div_pos_is_pos(n, x0);
    let s = n / x0;
    assert(s < x0) by (nonlinear_arith)
        requires
            x0 * s <= n,
            n < x0 * x0,
            x0 >= 1,
    ;
}

/// Floor of the square root of `n`, by Newton's iteration from `n / 2`.
pub fn integer_sqrt(n: u128) -> (r: u128)
    ensures
        is_floor_sqrt(n as int, r as int),
{
    if n <= 1 {
        assert(n * n <= n < (n + 1) * (n + 1)) by (nonlinear_arith)
            requires
                n <= 1,
        ;
        return n;
    }
    let mut x0: u128 = n / 2;
    assert(n < (x0 + 1) * (x0 + 1)) by (nonlinear_arith)
        requires
            x0 == n / 2,
            n >= 2,
    ;
    proof {
        if x0 >= 2 {
            lemma_div_is_ordered_by_denominator(n as int, 2, x0 as int);
        } else {
            assert((x0 + 1) * (x0 + 1) == 4) by (nonlinear_arith)
                requires
                    1 <= x0 < 2,
            ;
        }
    }
    let mut x1: u128 = (x0 + n / x0) / 2;
    while x1 < x0
        invariant
            n >= 2,
            1 <= x0 <= n / 2,
            n < (x0 + 1) * (x0 + 1),
            x1 as int == (x0 + n / x0) / 2,
        decreases x0,
    {
        proof {
            lemma_newton_step_stays_above(n as int, x0 as int);
        }
        assert(x1 >= 1) by (nonlinear_arith)
            requires
                n >= 2,
                n < (x1 + 1) * (x1 + 1),
        ;
        x0 = x1;
        proof {
            if x0 >= 2 {
                lemma_div_is_ordered_by_denominator(n as int, 2, x0 as int);
            } else {
                assert((x0 + 1) * (x0 + 1) == 4) by (nonlinear_arith)
                requires
                    1 <= x0 < 2,
            ;
            }
        }
        x1 = (x0 + n / x0) / 2;
    }
    proof {
        lemma_newton_fixpoint(n as int, x0 as int);
    }
    x0
}

/// Twice the exact area under the price line `base + width * s` for `s` from
/// `s0` to `s0 + q`: `2 * base * q + width * (2 * s0 * q + q * q)`.
pub open spec fn twice_exact_cost(base: int, width: int, s0: int, q: int) -> int {
    2 * base * q + width * (2 * s0 * q + q * q)
}

/// Amount charged for `q` tokens minted from supply `s0`: the trapezoidal
/// integral `base * q + width * (2 * s0 * q + q * q) / 2`, rounded down.
pub open spec fn curve_cost(base: int, width: int, s0: int, q: int) -> int {
    base * q + width * (2 * s0 * q + q * q) / 2
}

/// Outcome of pricing an exact token amount `q`.
pub open spec fn exact_output_spec(base: u64, width: u64, s0: u64, q: u64) -> Result<u64, TokenMillError> {
    let cost = curve_cost(base as int, width as int, s0 as int, q as int);
    if q == 0 {
        Err(TokenMillError::InvalidAmount)
    } else if cost > u64::MAX {
        Err(TokenMillError::MathOverflow)
    } else if cost == 0 {
        Err(TokenMillError::InvalidAmount)
    } else {
        Ok(cost as u64)
    }
}

proof fn lemma_scaled_at_least(w: int, x: int)
    requires
        w >= 1,
        x >= 0,
    ensures
        w * x >= x,
{
    lemma_mul_inequality(1, w, x);
}

/// Cost of `q` tokens from supply `s0`, in 128-bit checked arithmetic; `None`
/// exactly when a step overflows, which happens only when the cost exceeds
/// what a `u64` holds.
fn checked_curve_cost(base: u64, width: u64, s0: u64, q: u64) -> (r: Option<u128>)
    ensures
        match r {
            Some(c) => c as int == curve_cost(base as int, width as int, s0 as int, q as int),
            None => curve_cost(base as int, width as int, s0 as int, q as int) > u64::MAX,
        },
{
    let b = base as u128;
    let w = width as u128;
    let s = s0 as u128;
    let n = q as u128;
    proof {
        lemma_mul_upper_bound(b as int, u64::MAX as int, n as int, u64::MAX as int);
        lemma_mul_upper_bound(n as int, u64::MAX as int, n as int, u64::MAX as int);
        lemma_mul_nonnegative(b as int, n as int);
        lemma_mul_nonnegative(n as int, n as int);
        lemma_mul_nonnegative(2 * s0 as int, q as int);
        lemma_mul_nonnegative(width as int, 2 * s0 * q + q * q);
        lemma_div_pos_is_pos(width * (2 * s0 * q + q * q), 2);
    }
    let term1 = b * n;
    if w == 0 {
        return Some(term1);
    }
    let two_s0_q = match (2 * s).checked_mul(n) {
        Some(v) => v,
        None => {
            proof {
                lemma_scaled_at_least(width as int, 2 * s0 * q + q * q);
            }
            return None;
        },
    };
    let q_sq = n * n;
    let sum = match two_s0_q.checked_add(q_sq) {
        Some(v) => v,
        None => {
            proof {
                lemma_scaled_at_least(width as int, 2 * s0 * q + q * q);
            }
            return None;
        },
    };
    let numerator = match w.checked_mul(sum) {
        Some(v) => v,
        None => return None,
    };
    let term2 = numerator / 2;
    match term1.checked_add(term2) {
        Some(c) => Some(c),
        None => None,
    }
}

/// Price of buying exactly `q` tokens at supply `s0` on the curve with
/// starting price `base_price` and slope `width`.
pub fn buy_exact_output(base_price: u64, width: u64, s0: u64, q: u64) -> (r: Result<u64, TokenMillError>)
    ensures
        r == exact_output_spec(base_price, width, s0, q),
{
    if q == 0 {
        return Err(TokenMillError::InvalidAmount);
    }
    match checked_curve_cost(base_price, width, s0, q) {
        None => Err(TokenMillError::MathOverflow),
        Some(cost) => {
            if cost > u64::MAX as u128 {
                Err(TokenMillError::MathOverflow)
            } else if cost == 0 {
                Err(TokenMillError::InvalidAmount)
            } else {
                Ok(cost as u64)
            }
        },
    }
}

/// Linear coefficient of the doubled purchase equation
/// `width * q^2 + 2 * (width * s0 + base) * q - 2 * quote = 0`.
pub open spec fn quadratic_b(base: int, width: int, s0: int) -> int {
    2 * (width * s0 + base)
}

/// Discriminant of the doubled purchase equation.
pub open spec fn discriminant(base: int, width: int, s0: int, quote: int) -> int {
    quadratic_b(base, width, s0) * quadratic_b(base, width, s0) + 4 * width * (2 * quote)
}

/// `q` tokens can be bought with `quote` when their exact (unrounded) cost fits.
pub open spec fn affordable(base: int, width: int, s0: int, quote: int, q: int) -> bool {
    twice_exact_cost(base, width, s0, q) <= 2 * quote
}

/// The largest affordable token amount.
pub open spec fn max_affordable(base: int, width: int, s0: int, quote: int) -> int {
    choose|q: int| q >= 0 && #[trigger] affordable(base, width, s0, quote, q) && !affordable(base, width, s0, quote, q + 1)
}

/// Outcome of spending `quote`: the charged cost and the token amount.
pub open spec fn exact_input_spec(base: u64, width: u64, s0: u64, quote: u64) -> Result<(u64, u64), TokenMillError> {
    let q = max_affordable(base as int, width as int, s0 as int, quote as int);
    let cost = curve_cost(base as int, width as int, s0 as int, q);
    if quote == 0 {
        Err(TokenMillError::InvalidAmount)
    } else if width == 0 && base == 0 {
        Err(TokenMillError::InvalidPrice)
    } else if width > 0 && discriminant(base as int, width as int, s0 as int, quote as int) > u128::MAX {
        Err(TokenMillError::MathOverflow)
    } else if q == 0 || cost == 0 {
        Err(TokenMillError::InvalidAmount)
    } else {
        Ok((cost as u64, q as u64))
    }
}

/// The exact cost grows with the token amount.
pub proof fn lemma_twice_cost_monotone(base: int, width: int, s0: int, q1: int, q2: int)
    requires
        base >= 0,
        width >= 0,
        s0 >= 0,
        0 <= q1 <= q2,
    ensures
        twice_exact_cost(base, width, s0, q1) <= twice_exact_cost(base, width, s0, q2),
{
    assert(2 * base * q1 <= 2 * base * q2) by (nonlinear_arith)
        requires
            base >= 0,
            q1 <= q2,
    ;
    assert(2 * s0 * q1 + q1 * q1 <= 2 * s0 * q2 + q2 * q2) by (nonlinear_arith)
        requires
            s0 >= 0,
            0 <= q1 <= q2,
    ;
    lemma_mul_inequality(2 * s0 * q1 + q1 * q1, 2 * s0 * q2 + q2 * q2, width);
    lemma_mul_is_commutative(width, 2 * s0 * q1 + q1 * q1);
    lemma_mul_is_commutative(width, 2 * s0 * q2 + q2 * q2);
}

/// Any amount with the defining property of `max_affordable` is that value.
pub proof fn lemma_max_affordable_unique(base: int, width: int, s0: int, quote: int, q: int)
    requires
        base >= 0,
        width >= 0,
        s0 >= 0,
        q >= 0,
        affordable(base, width, s0, quote, q),
        !affordable(base, width, s0, quote, q + 1),
    ensures
        max_affordable(base, width, s0, quote) == q,
{
    let m = max_affordable(base, width, s0, quote);
    assert(m >= 0 && affordable(base, width, s0, quote, m) && !affordable(base, width, s0, quote, m + 1));
    if m < q {
        lemma_twice_cost_monotone(base, width, s0, m + 1, q);
    } else if m > q {
        lemma_twice_cost_monotone(base, width, s0, q + 1, m);
    }
}

/// The rounded cost of an affordable amount stays within the quote.
pub proof fn lemma_cost_within_quote(base: int, width: int, s0: int, quote: int, q: int)
    requires
        base >= 0,
        width >= 0,
        s0 >= 0,
        q >= 0,
        affordable(base, width, s0, quote, q),
    ensures
        0 <= curve_cost(base, width, s0, q) <= quote,
{
    let x = width * (2 * s0 * q + q * q);
    assert(x >= 0) by (nonlinear_arith)
        requires
            width >= 0,
            s0 >= 0,
            q >= 0,
            x == width * (2 * s0 * q + q * q),
    ;
    assert(2 * base * q == 2 * (base * q)) by (nonlinear_arith);
    assert(base * q >= 0) by (nonlinear_arith)
        requires
            base >= 0,
            q >= 0,
    ;
}

/// Completing the square: `(2 * width * q + b)^2 == b^2 + 4 * width * twice_exact_cost(q)`.
proof fn lemma_completed_square(base: int, width: int, s0: int, q: int)
    ensures
        (2 * width * q + quadratic_b(base, width, s0)) * (2 * width * q + quadratic_b(base, width, s0))
            == quadratic_b(base, width, s0) * quadratic_b(base, width, s0) + 4 * width
            * twice_exact_cost(base, width, s0, q),
{
    let b = quadratic_b(base, width, s0);
    let u = width * q;
    let a = 2 * u;
    assert(2 * width * q == 2 * u) by (nonlinear_arith)
        requires
            u == width * q,
    ;
    assert((a + b) * (a + b) == a * a + 2 * a * b + b * b) by (nonlinear_arith);
    assert(a * a == 4 * (u * u)) by (nonlinear_arith)
        requires
            a == 2 * u,
    ;
    assert(2 * a * b == 8 * u * (width * s0) + 8 * u * base) by (nonlinear_arith)
        requires
            a == 2 * u,
            b == 2 * (width * s0 + base),
    ;
    assert(width * (2 * s0 * q + q * q) == 2 * s0 * u + q * u) by (nonlinear_arith)
        requires
            u == width * q,
    ;
    assert(4 * width * (2 * base * q + (2 * s0 * u + q * u)) == 8 * base * u + 8 * s0 * (width * u) + 4 * (u
        * u)) by (nonlinear_arith)
        requires
            u == width * q,
    ;
    assert(8 * u * (width * s0) == 8 * s0 * (width * u)) by (nonlinear_arith);
    assert(8 * u * base == 8 * base * u) by (nonlinear_arith);
}

/// On a curved market, affordability is comparing a square with the discriminant.
proof fn lemma_affordable_iff_square(base: int, width: int, s0: int, quote: int, q: int)
    requires
        width >= 1,
    ensures
        affordable(base, width, s0, quote, q) <==> (2 * width * q + quadratic_b(base, width, s0)) * (2
            * width * q + quadratic_b(base, width, s0)) <= discriminant(base, width, s0, quote),
{
    lemma_completed_square(base, width, s0, q);
    let t = twice_exact_cost(base, width, s0, q);
    assert(t <= 2 * quote <==> 4 * width * t <= 4 * width * (2 * quote)) by (nonlinear_arith)
        requires
            width >= 1,
    ;
}

/// The Newton root of the discriminant yields the largest affordable amount.
proof fn lemma_root_gives_max(base: int, width: int, s0: int, quote: int, r: int, q: int)
    requires
        base >= 0,
        width >= 1,
        s0 >= 0,
        quote >= 0,
        is_floor_sqrt(discriminant(base, width, s0, quote), r),
        q == (if r > quadratic_b(base, width, s0) { r - quadratic_b(base, width, s0) } else { 0 }) / (2 * width),
    ensures
        q >= 0,
        affordable(base, width, s0, quote, q),
        !affordable(base, width, s0, quote, q + 1),
{
    let b = quadratic_b(base, width, s0);
    let d = discriminant(base, width, s0, quote);
    let num = if r > b { r - b } else { 0 };
    lemma_fundamental_div_mod(num, 2 * width);
    lemma_mod_pos_bound(num, 2 * width);
    lemma_div_pos_is_pos(num, 2 * width);
    assert(2 * width * q <= num < 2 * width * (q + 1)) by (nonlinear_arith)
        requires
            num == (2 * width) * q + num % (2 * width),
            0 <= num % (2 * width) < 2 * width,
    ;
    lemma_affordable_iff_square(base, width, s0, quote, q);
    lemma_affordable_iff_square(base, width, s0, quote, q + 1);
    let t0 = 2 * width * q + b;
    let t1 = 2 * width * (q + 1) + b;
    assert(2 * width * (q + 1) + b == 2 * width * q + 2 * width + b) by (nonlinear_arith);
    assert(b >= 0) by (nonlinear_arith)
        requires
            b == 2 * (width * s0 + base),
            width >= 0,
            s0 >= 0,
            base >= 0,
    ;
    if r > b {
        assert(0 <= t0 <= r);
        assert(t0 * t0 <= r * r) by (nonlinear_arith)
            requires
                0 <= t0 <= r,
        ;
    } else {
        assert(q == 0);
        assert(twice_exact_cost(base, width, s0, 0) == 0) by (nonlinear_arith);
    }
    assert(t1 >= r + 1);
    assert(t1 * t1 >= (r + 1) * (r + 1)) by (nonlinear_arith)
        requires
            t1 >= r + 1,
            r >= 0,
    ;
}

/// On a flat market the largest affordable amount is the quotient by the price.
proof fn lemma_flat_max(base: int, s0: int, quote: int)
    requires
        base >= 1,
        quote >= 0,
        s0 >= 0,
    ensures
        max_affordable(base, 0, s0, quote) == quote / base,
        affordable(base, 0, s0, quote, quote / base),
        !affordable(base, 0, s0, quote, quote / base + 1),
{
    let q = quote / base;
    lemma_fundamental_div_mod(quote, base);
    lemma_mod_pos_bound(quote, base);
    lemma_div_pos_is_pos(quote, base);
    assert(2 * base * q <= 2 * quote < 2 * base * (q + 1)) by (nonlinear_arith)
        requires
            quote == base * q + quote % base,
            0 <= quote % base < base,
    ;
    assert(twice_exact_cost(base, 0, s0, q) == 2 * base * q);
    assert(twice_exact_cost(base, 0, s0, q + 1) == 2 * base * (q + 1));
    lemma_max_affordable_unique(base, 0, s0, quote, q);
}

/// Tokens bought by spending at most `quote` at supply `s0`, and the amount
/// actually charged for them, which never exceeds `quote`.
pub fn buy_exact_input(base_price: u64, width: u64, s0: u64, quote: u64) -> (r: Result<(u64, u64), TokenMillError>)
    ensures
        r == exact_input_spec(base_price, width, s0, quote),
        r matches Ok((cost, _)) ==> cost <= quote,
{
    if quote == 0 {
        return Err(TokenMillError::InvalidAmount);
    }
    let ghost (bi, wi, si, qi) = (base_price as int, width as int, s0 as int, quote as int);
    let q: u64;
    if width == 0 {
        if base_price == 0 {
            return Err(TokenMillError::InvalidPrice);
        }
        q = quote / base_price;
        proof {
            lemma_flat_max(bi, si, qi);
        }
    } else {
        let w = width as u128;
        let s = s0 as u128;
        proof {
            lemma_mul_upper_bound(wi, u64::MAX as int, si, u64::MAX as int);
            assert(u64::MAX * u64::MAX + u64::MAX <= u128::MAX) by (nonlinear_arith);
        }
        let inner = w * s + base_price as u128;
        let ghost bq = quadratic_b(bi, wi, si);
        proof {
            assert(bq >= 0) by (nonlinear_arith)
                requires
                    bq == 2 * (wi * si + bi),
                    wi >= 0,
                    si >= 0,
                    bi >= 0,
            ;
            assert(4 * wi * (2 * qi) >= 0) by (nonlinear_arith)
                requires
                    wi >= 0,
                    qi >= 0,
            ;
            assert(bq * bq >= 0) by (nonlinear_arith);
        }
        let b = match inner.checked_mul(2) {
            Some(v) => v,
            None => {
                proof {
                    assert(bq * bq >= bq) by (nonlinear_arith)
                        requires
                            bq >= 1,
                    ;
                }
                return Err(TokenMillError::MathOverflow);
            },
        };
        let c = quote as u128 * 2;
        let bb = match b.checked_mul(b) {
            Some(v) => v,
            None => return Err(TokenMillError::MathOverflow),
        };
        let four_a = 4 * w;
        proof {
            assert(4 * wi * (2 * qi) == (4 * wi) * (2 * qi));
        }
        let four_ac = match four_a.checked_mul(c) {
            Some(v) => v,
            None => return Err(TokenMillError::MathOverflow),
        };
        let disc = match bb.checked_add(four_ac) {
            Some(v) => v,
            None => return Err(TokenMillError::MathOverflow),
        };
        let root = integer_sqrt(disc);
        let numerator = if root > b {
            root - b
        } else {
            0
        };
        let denom = 2 * w;
        let n = numerator / denom;
        proof {
            lemma_root_gives_max(bi, wi, si, qi, root as int, n as int);
            lemma_max_affordable_unique(bi, wi, si, qi, n as int);
            let x = 2 * si * n + n * n;
            assert(n * n <= 2 * qi) by (nonlinear_arith)
                requires
                    twice_exact_cost(bi, wi, si, n as int) <= 2 * qi,
                    wi >= 1,
                    si >= 0,
                    bi >= 0,
                    n >= 0,
            ;
            assert(n <= u64::MAX) by (nonlinear_arith)
                requires
                    n * n <= 2 * qi,
                    qi <= u64::MAX,
                    n >= 0,
            ;
        }
        q = n as u64;
    }
    let ghost m = max_affordable(bi, wi, si, qi);
    assert(m == q as int);
    if q == 0 {
        return Err(TokenMillError::InvalidAmount);
    }
    proof {
        assert(m >= 0 && affordable(bi, wi, si, qi, m) && !affordable(bi, wi, si, qi, m + 1));
        lemma_cost_within_quote(bi, wi, si, qi, m);
    }
    let cost = match checked_curve_cost(base_price, width, s0, q) {
        Some(v) => v,
        None => return Err(TokenMillError::MathOverflow),
    };
    if cost == 0 {
        return Err(TokenMillError::InvalidAmount);
    }
    Ok((cost as u64, q))
}

/// Each further token costs `2 * base + width * (2 * s0 + 2 * q + 1)` more, doubled.
proof fn lemma_twice_cost_step(base: int, width: int, s0: int, q: int)
    ensures
        twice_exact_cost(base, width, s0, q + 1) == twice_exact_cost(base, width, s0, q) + 2 * base + width * (2
            * s0 + 2 * q + 1),
{
    assert(2 * base * (q + 1) + width * (2 * s0 * (q + 1) + (q + 1) * (q + 1)) == 2 * base * q + width * (2
        * s0 * q + q * q) + 2 * base + width * (2 * s0 + 2 * q + 1)) by (nonlinear_arith);
}

/// Paying the price of exactly `q` tokens buys back the same `q` tokens at the
/// same price on a flat curve. On a sloped curve it buys back `q` when the
/// slope term of the cost was even, and `q - 1` when rounding it down dropped
/// half a unit; the pricing then fails only if the discriminant overflows.
pub proof fn lemma_exact_output_then_input(base: u64, width: u64, s0: u64, q: u64)
    requires
        exact_output_spec(base, width, s0, q) is Ok,
    ensures
        ({
            let c = exact_output_spec(base, width, s0, q)->Ok_0;
            let x = width * (2 * s0 * q + q * q);
            &&& c == curve_cost(base as int, width as int, s0 as int, q as int)
            &&& width == 0 ==> exact_input_spec(base, width, s0, c) == Ok::<(u64, u64), TokenMillError>((c, q))
            &&& width > 0 ==> max_affordable(base as int, width as int, s0 as int, c as int) == if x % 2 == 0 {
                q as int
            } else {
                q - 1
            }
            &&& width > 0 && x % 2 == 0 && discriminant(base as int, width as int, s0 as int, c as int)
                <= u128::MAX ==> exact_input_spec(base, width, s0, c) == Ok::<(u64, u64), TokenMillError>((c, q))
        }),
{
    let (bi, wi, si, qi) = (base as int, width as int, s0 as int, q as int);
    let c = exact_output_spec(base, width, s0, q)->Ok_0;
    let x = wi * (2 * si * qi + qi * qi);
    assert(x >= 0) by (nonlinear_arith)
        requires
            x == wi * (2 * si * qi + qi * qi),
            wi >= 0,
            si >= 0,
            qi >= 0,
    ;
    assert(2 * bi * qi == 2 * (bi * qi)) by (nonlinear_arith);
    assert(twice_exact_cost(bi, wi, si, qi) == 2 * c + x % 2);
    lemma_twice_cost_step(bi, wi, si, qi);
    lemma_twice_cost_step(bi, wi, si, qi - 1);
    if bi == 0 && wi == 0 {
        assert(c == 0) by (nonlinear_arith)
            requires
                c == bi * qi + wi * (2 * si * qi + qi * qi) / 2,
                bi == 0,
                wi == 0,
        ;
    }
    assert(wi * (2 * si + 2 * qi + 1) >= 0) by (nonlinear_arith)
        requires
            wi >= 0,
            si >= 0,
            qi >= 0,
    ;
    assert(wi * (2 * si + 2 * (qi - 1) + 1) >= 0) by (nonlinear_arith)
        requires
            wi >= 0,
            si >= 0,
            qi >= 1,
    ;
    assert(wi >= 1 ==> wi * (2 * si + 2 * qi + 1) >= 1) by (nonlinear_arith)
        requires
            si >= 0,
            qi >= 1,
    ;
    assert(wi >= 1 ==> wi * (2 * si + 2 * (qi - 1) + 1) >= 1) by (nonlinear_arith)
        requires
            si >= 0,
            qi >= 1,
    ;
    if x % 2 == 0 {
        lemma_max_affordable_unique(bi, wi, si, c as int, qi);
    } else {
        assert(wi != 0);
        lemma_max_affordable_unique(bi, wi, si, c as int, qi - 1);
    }
    if wi == 0 {
        assert(x == 0) by (nonlinear_arith)
            requires
                x == wi * (2 * si * qi + qi * qi),
                wi == 0,
        ;
    }
}

} // verus!
