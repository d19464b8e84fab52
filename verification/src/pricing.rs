//! The price curve and the fee rule.
//!
//! The `k`-th key (counted from zero) costs `k * k` curve units. Moving the
//! supply over a range of keys costs the sum of their units, scaled into the
//! smallest unit of the payment denomination.

use vstd::prelude::*;

verus! {

/// Numerator of the scaling from curve units to payment units.
pub const SCALE: u128 = 1_000_000;

/// Denominator of the scaling from curve units to payment units.
pub const DIVISOR: u128 = 1_600;

/// Payment units per curve unit: `SCALE / DIVISOR`, which divides exactly.
pub const UNIT_PRICE: u128 = 625;

/// Share of the price, in percent, that the issuer collects on every trade.
pub const ISSUER_FEE_PERCENTAGE: u32 = 5;

/// Area under the curve up to `n` keys: `0*0 + 1*1 + ... + (n-1)*(n-1)`,
/// in closed form.
pub open spec fn curve_sum(n: nat) -> nat {
    if n >= 1 {
        (n * (n - 1) * (2 * n - 1) / 6) as nat
    } else {
        0
    }
}

/// Cost of moving the supply from `supply` to `supply + amount` keys.
pub open spec fn curve_price(supply: nat, amount: nat) -> nat {
    ((curve_sum(supply + amount) - curve_sum(supply)) * (SCALE as int) / (DIVISOR as int)) as nat
}

/// Price of buying `buy_amount` keys when `supply_before_buy` are out.
pub open spec fn buy_price(supply_before_buy: nat, buy_amount: nat) -> nat {
    curve_price(supply_before_buy, buy_amount)
}

/// Price of selling `sell_amount` keys when `supply_before_sell` are out: the
/// price of the buy that would lead back to the supply before the sale.
pub open spec fn sell_price(supply_before_sell: nat, sell_amount: nat) -> nat
    recommends
        sell_amount <= supply_before_sell,
{
    curve_price((supply_before_sell - sell_amount) as nat, sell_amount)
}

/// `percentage` percent of `price`, rounded down.
pub open spec fn percentage_of(price: nat, percentage: nat) -> nat {
    price * percentage / 100
}

/// The sum that `curve_sum` abbreviates, term by term.
pub open spec fn squares_below(n: nat) -> nat
    decreases n,
{
    if n == 0 {
        0
    } else {
        (squares_below((n - 1) as nat) + (n - 1) * (n - 1)) as nat
    }
}

/// Curve units of the keys numbered `supply` up to `supply + amount - 1`.
pub open spec fn range_units(supply: nat, amount: nat) -> nat {
    (curve_sum(supply + amount) - curve_sum(supply)) as nat
}

/// The closed form is the sum of squares: the product under the division is
/// six times the sum, so the division by six is exact.
pub proof fn lemma_curve_sum_is_sum_of_squares(n: nat)
    ensures
        6 * squares_below(n) == n * (n - 1) * (2 * n - 1),
        curve_sum(n) == squares_below(n),
    decreases n,
{
    if n > 0 {
        let m: int = n - 1;
        lemma_curve_sum_is_sum_of_squares(m as nat);
        assert((m + 1) * m * (2 * (m + 1) - 1) == m * (m - 1) * (2 * m - 1) + 6 * (m * m))
            by (nonlinear_arith);
        assert(squares_below(n) == squares_below(m as nat) + m * m);
        assert(n * (n - 1) * (2 * n - 1) == (m + 1) * m * (2 * (m + 1) - 1));
    } else {
        assert(n * (n - 1) * (2 * n - 1) == 0) by (nonlinear_arith)
            requires
                n == 0,
        ;
    }
}

/// Adding one key to the range adds the square of its number.
pub proof fn lemma_curve_sum_step(n: nat)
    ensures
        curve_sum(n + 1) == curve_sum(n) + n * n,
{
    lemma_curve_sum_is_sum_of_squares(n);
    lemma_curve_sum_is_sum_of_squares(n + 1);
}

/// The curve never falls: the area up to a larger count is at least the area
/// up to a smaller one, so the difference in `curve_price` never goes below
/// zero.
pub proof fn lemma_curve_sum_monotonic(low: nat, high: nat)
    requires
        low <= high,
    ensures
        curve_sum(low) <= curve_sum(high),
    decreases high - low,
{
    if low < high {
        lemma_curve_sum_monotonic(low, (high - 1) as nat);
        lemma_curve_sum_step((high - 1) as nat);
        assert(0 <= (high - 1) * (high - 1)) by (nonlinear_arith);
    }
}

/// The units of a range, written without the area below the range.
proof fn lemma_range_units_expanded(supply: nat, amount: nat)
    ensures
        range_units(supply, amount) == amount * (supply * supply) + supply * (amount * (amount
            - 1)) + squares_below(amount),
        6 * squares_below(amount) == (amount * (amount - 1)) * (2 * amount - 1),
        amount >= 1 ==> 0 <= supply * supply <= amount * (supply * supply),
        0 <= amount * (supply * supply),
        0 <= amount * (amount - 1),
        0 <= supply * (amount * (amount - 1)),
    decreases amount,
{
    let s: int = supply as int;
    let a: int = amount as int;
    lemma_curve_sum_is_sum_of_squares(supply);
    lemma_curve_sum_is_sum_of_squares(amount);
    lemma_curve_sum_is_sum_of_squares(supply + amount);
    lemma_curve_sum_monotonic(supply, supply + amount);
    assert(0 <= s * s) by (nonlinear_arith);
    assert(0 <= a * (s * s)) by (nonlinear_arith)
        requires
            0 <= a,
            0 <= s,
    ;
    assert(0 <= a * (a - 1)) by (nonlinear_arith)
        requires
            0 <= a,
    ;
    assert(0 <= s * (a * (a - 1))) by (nonlinear_arith)
        requires
            0 <= a,
            0 <= s,
    ;
    assert(a >= 1 ==> s * s <= a * (s * s)) by (nonlinear_arith)
        requires
            0 <= s,
    ;
    assert(a * (a - 1) * (2 * a - 1) == (a * (a - 1)) * (2 * a - 1));
    if amount > 0 {
        let b: int = a - 1;
        lemma_range_units_expanded(supply, b as nat);
        lemma_curve_sum_is_sum_of_squares((supply + b) as nat);
        lemma_curve_sum_monotonic(supply, (supply + b) as nat);
        assert(squares_below(supply + amount) == squares_below((supply + b) as nat) + (s + b) * (s
            + b));
        assert(squares_below(amount) == squares_below(b as nat) + b * b);
        assert((b + 1) * (s * s) + s * ((b + 1) * b) + b * b == b * (s * s) + s * (b * (b - 1))
            + (s + b) * (s + b)) by (nonlinear_arith);
    } else {
        assert(a * (s * s) + s * (a * (a - 1)) == 0) by (nonlinear_arith)
            requires
                a == 0,
        ;
    }
}

/// Scaling by `SCALE / DIVISOR` loses nothing: it multiplies by `UNIT_PRICE`.
pub proof fn lemma_price_is_exact(supply: nat, amount: nat)
    ensures
        curve_price(supply, amount) == range_units(supply, amount) * UNIT_PRICE,
{
    lemma_curve_sum_monotonic(supply, supply + amount);
    let units: int = range_units(supply, amount) as int;
    assert(units * 1_000_000 == (units * 625) * 1_600);
}

/// Cost of moving the supply from `supply` to `supply + amount` keys, or
/// `None` where that cost does not fit in 128 bits. The cost is put together
/// from parts none of which leaves 128 bits unless the cost itself does, so
/// every cost that fits is found.
pub fn calculate_price(supply: u128, amount: u128) -> (price: Option<u128>)
    ensures
        price == (if curve_price(supply as nat, amount as nat) <= u128::MAX {
            Some(curve_price(supply as nat, amount as nat) as u128)
        } else {
            None::<u128>
        }),
{
    let ghost s: int = supply as int;
    let ghost a: int = amount as int;
    let ghost below: int = squares_below(amount as nat) as int;
    let ghost units: int = range_units(supply as nat, amount as nat) as int;
    proof {
        lemma_range_units_expanded(supply as nat, amount as nat);
        lemma_price_is_exact(supply as nat, amount as nat);
    }
    if amount == 0 {
        proof {
            assert(a * (s * s) + s * (a * (a - 1)) == 0) by (nonlinear_arith)
                requires
                    a == 0,
            ;
        }
        return Some(0);
    }
    // amount * (amount - 1) * (2 * amount - 1) / 6
    let pairs: u128 = match amount.checked_mul(amount - 1) {
        Some(v) => v,
        None => {
            proof {
                assert(a >= 4) by (nonlinear_arith)
                    requires
                        a * (a - 1) > u128::MAX,
                        a >= 1,
                ;
                assert((a * (a - 1)) * (2 * a - 1) >= (a * (a - 1)) * 6) by (nonlinear_arith)
                    requires
                        a >= 4,
                        a * (a - 1) >= 0,
                ;
            }
            return None;
        },
    };
    proof {
        assert(a <= 0x1_0000_0000_0000_0000) by (nonlinear_arith)
            requires
                a * (a - 1) <= u128::MAX,
                a >= 1,
        ;
    }
    let sixfold: u128 = match pairs.checked_mul(2 * amount - 1) {
        Some(v) => v,
        None => {
            return None;
        },
    };
    let within: u128 = sixfold / 6;
    assert(within == below);
    let spread: u128 = match supply.checked_mul(pairs) {
        Some(v) => v,
        None => {
            return None;
        },
    };
    let square: u128 = match supply.checked_mul(supply) {
        Some(v) => v,
        None => {
            return None;
        },
    };
    let base: u128 = match amount.checked_mul(square) {
        Some(v) => v,
        None => {
            return None;
        },
    };
    let partial: u128 = match base.checked_add(spread) {
        Some(v) => v,
        None => {
            return None;
        },
    };
    let total: u128 = match partial.checked_add(within) {
        Some(v) => v,
        None => {
            return None;
        },
    };
    assert(total == units);
    total.checked_mul(UNIT_PRICE)
}

/// Price of buying `buy_amount` keys when `supply_before_buy` are out.
pub fn calculate_buy_price(supply_before_buy: u128, buy_amount: u128) -> (price: u128)
    requires
        buy_price(supply_before_buy as nat, buy_amount as nat) <= u128::MAX,
    ensures
        price == buy_price(supply_before_buy as nat, buy_amount as nat),
{
    match calculate_price(supply_before_buy, buy_amount) {
        Some(price) => price,
        None => vstd::pervasive::unreached(),
    }
}

/// Price of selling `sell_amount` keys when `supply_before_sell` are out.
pub fn calculate_sell_price(supply_before_sell: u128, sell_amount: u128) -> (price: u128)
    requires
        sell_amount <= supply_before_sell,
        sell_price(supply_before_sell as nat, sell_amount as nat) <= u128::MAX,
    ensures
        price == sell_price(supply_before_sell as nat, sell_amount as nat),
{
    match calculate_price(supply_before_sell - sell_amount, sell_amount) {
        Some(price) => price,
        None => vstd::pervasive::unreached(),
    }
}

/// `percentage` percent of `price`, rounded down.
pub fn multiply_percentage(price: u128, percentage: u32) -> (share: u128)
    requires
        percentage_of(price as nat, percentage as nat) <= u128::MAX,
    ensures
        share == percentage_of(price as nat, percentage as nat),
{
    let hundreds: u128 = price / 100;
    let rest: u128 = price % 100;
    let ghost p: int = percentage as int;
    proof {
        assert(0 <= (rest as int) * p <= 99 * 0xffff_ffff) by (nonlinear_arith)
            requires
                0 <= rest <= 99,
                0 <= p <= 0xffff_ffff,
        ;
        assert((price as int) * p == 100 * ((hundreds as int) * p) + (rest as int) * p)
            by (nonlinear_arith)
            requires
                price as int == 100 * (hundreds as int) + rest as int,
        ;
        assert(0 <= (hundreds as int) * p) by (nonlinear_arith)
            requires
                0 <= hundreds,
                0 <= p,
        ;
    }
    hundreds * (percentage as u128) + rest * (percentage as u128) / 100
}

/// A price is a function of supply and amount alone, and moving the supply
/// by no key costs nothing.
pub proof fn lemma_buy_nothing_is_free(supply: nat, amount: nat)
    ensures
        buy_price(supply, amount) == buy_price(supply, amount),
        buy_price(supply, 0) == 0,
{
}

/// Selling a range of keys pays what buying the same range cost: after a
/// buy of `amount` keys at `supply`, the sale of `amount` keys at
/// `supply + amount` has the price of that buy.
pub proof fn lemma_buy_sell_symmetry(supply: nat, amount: nat)
    ensures
        buy_price(supply, amount) == sell_price(supply + amount, amount),
{
    assert((supply + amount - amount) as nat == supply);
}

/// A buy whose price fits in 128 bits leads to a supply that fits as well.
pub proof fn lemma_priced_supply_fits(supply: nat, amount: nat)
    requires
        supply <= u128::MAX,
        amount <= u128::MAX,
        buy_price(supply, amount) <= u128::MAX,
    ensures
        supply + amount <= u128::MAX,
{
    let s: int = supply as int;
    let a: int = amount as int;
    lemma_range_units_expanded(supply, amount);
    lemma_price_is_exact(supply, amount);
    if a >= 1 && s >= 1 {
        assert(s <= s * s) by (nonlinear_arith)
            requires
                s >= 1,
        ;
        assert(a <= a * (s * s)) by (nonlinear_arith)
            requires
                a >= 1,
                s * s >= 1,
        ;
    }
}

} // verus!
