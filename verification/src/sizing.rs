//! Order sizes: rounding to the exchange's step and its minimum notional.
use crate::fixed::{
    bounded, clamp_fixed, div_fixed, div_floor, min_fixed, min_of, mul_fixed, product,
    product_at_least, quotient, wide, LIMIT, ONE, PRODUCT_MAX,
};
use crate::money::{
    dec_add, dec_at_most, dec_le, decimal_product, decimal_sum, near_sum, notional_dec, plain_string,
    plain_text, tolerance_usdt, value, Dec,
};
use crate::slack::lemma_order;
use crate::text::{fixed_string, fixed_text};
use vstd::prelude::*;

verus! {

/// Why an order size was refused.
#[derive(Clone, Copy, Debug, PartialEq, Eq, Structural)]
pub enum SizeError {
    /// The value of the order is below the exchange's minimum.
    BelowMinNotional { notional: i128, min_notional: i128 },
    /// Nothing is left to sell.
    NothingToSell,
    /// More would be sold than is free.
    NotEnoughFree { qty: i128, btc_free: i128 },
}

/// An error in words.
pub open spec fn size_error_text(e: SizeError) -> Seq<char> {
    match e {
        SizeError::BelowMinNotional { notional, min_notional } => "Order blocked: notional "@
            + fixed_text(notional as int, 8) + " < min_notional "@ + fixed_text(
            min_notional as int,
            8,
        ),
        SizeError::NothingToSell => "Order blocked: qty <= 0 after rounding/clamping"@,
        SizeError::NotEnoughFree { qty, btc_free } => "Order blocked: qty "@ + plain_text(
            qty as int,
        ) + " > btc_free "@ + plain_text(btc_free as int),
    }
}

impl SizeError {
    /// The quantities are within the range of the arithmetic.
    pub open spec fn ok(self) -> bool {
        match self {
            SizeError::NotEnoughFree { qty, btc_free } => bounded(qty as int) && bounded(
                btc_free as int,
            ),
            _ => true,
        }
    }

    /// The error in words.
    pub fn message(self) -> (s: String)
        requires
            self.ok(),
        ensures
            s@ == size_error_text(self),
    {
        match self {
            SizeError::BelowMinNotional { notional, min_notional } => {
                let mut s: String = String::from_str("Order blocked: notional ");
                s.append(fixed_string(notional, 8).as_str());
                s.append(" < min_notional ");
                s.append(fixed_string(min_notional, 8).as_str());
                s
            },
            SizeError::NothingToSell => String::from_str(
                "Order blocked: qty <= 0 after rounding/clamping",
            ),
            SizeError::NotEnoughFree { qty, btc_free } => {
                let mut s: String = String::from_str("Order blocked: qty ");
                s.append(plain_string(qty).as_str());
                s.append(" > btc_free ");
                s.append(plain_string(btc_free).as_str());
                s
            },
        }
    }
}

/// `value` rounded down to a multiple of `step`.
pub open spec fn step_down(value: int, step: int) -> int {
    if step <= 0 {
        value
    } else {
        (value / step) * step
    }
}

/// `value` rounded down to a multiple of `step`; a step that is not positive
/// leaves it as it is.
pub fn round_down_to_step(value: i128, step: i128) -> (r: i128)
    requires
        bounded(value as int),
        bounded(step as int),
    ensures
        r == step_down(value as int, step as int),
        -2 * LIMIT <= r <= value,
{
    if step <= 0 {
        return value;
    }
    let k: i128 = div_floor(value, step);
    proof {
        vstd::arithmetic::div_mod::lemma_fundamental_div_mod(value as int, step as int);
        assert(k * step == step * k) by (nonlinear_arith);
    }
    k * step
}

/// Rounding down reaches a multiple of the step, less than one step below.
pub proof fn law_step_down(value: int, step: int)
    requires
        step > 0,
    ensures
        step_down(value, step) % step == 0,
        value - step < step_down(value, step) <= value,
{
    vstd::arithmetic::div_mod::lemma_fundamental_div_mod(value, step);
    vstd::arithmetic::div_mod::lemma_mod_multiples_basic(value / step, step);
    assert((value / step) * step == step * (value / step)) by (nonlinear_arith);
}

/// `price * qty`.
pub fn notional(price: i128, qty: i128) -> (n: i128)
    requires
        wide(price as int),
        wide(qty as int),
    ensures
        n == product(price as int, qty as int),
        -30_000_000_000_000_000_000_000_000_000_000_000_000 <= n
            <= 30_000_000_000_000_000_000_000_000_000_000_000_000,
{
    mul_fixed(price, qty)
}

/// Whether an order is worth more than `10^-12` less than the minimum. The value is
/// compared before it is rounded.
pub open spec fn below_minimum(price: int, qty: int, min_notional: int) -> bool {
    price * qty + ONE < min_notional * ONE
}

/// Refuses an order whose value is more than `10^-12` below the minimum.
pub fn ensure_min_notional(price: i128, qty: i128, min_notional: i128) -> (r: Result<(), SizeError>)
    requires
        wide(price as int),
        wide(qty as int),
    ensures
        r == (if below_minimum(price as int, qty as int, min_notional as int) {
            Err(
                SizeError::BelowMinNotional {
                    notional: product(price as int, qty as int) as i128,
                    min_notional,
                },
            )
        } else {
            Ok(())
        }),
{
    let least: i128 = clamp_fixed(min_notional, -PRODUCT_MAX + 1, PRODUCT_MAX) - 1;
    proof {
        assert(-16_000_000_000_000_000_000_000_000_000_000_000_000_000_000_000_000 <= price * qty
            <= 16_000_000_000_000_000_000_000_000_000_000_000_000_000_000_000_000)
            by (nonlinear_arith)
            requires
                -4_000_000_000_000_000_000_000_000 <= price <= 4_000_000_000_000_000_000_000_000,
                -4_000_000_000_000_000_000_000_000 <= qty <= 4_000_000_000_000_000_000_000_000,
        ;
    }
    if !product_at_least(price, qty, least) {
        Err(SizeError::BelowMinNotional { notional: notional(price, qty), min_notional })
    } else {
        Ok(())
    }
}

/// Whether an order clears the minimum notional in decimal arithmetic; `None`
/// where that arithmetic overflows.
pub open spec fn clears_minimum(
    price: (int, nat),
    qty: (int, nat),
    min_notional: (int, nat),
) -> Option<bool> {
    match decimal_product(price, qty) {
        Some(n) => match decimal_sum(n, (1int, 12nat)) {
            Some(m) => Some(dec_at_most(min_notional, m)),
            None => None,
        },
        None => None,
    }
}

/// Whether an order's value, with a tolerance of `10^-12`, reaches the minimum.
/// `None` where the decimal arithmetic overflows.
pub fn ensure_min_notional_dec(price: Dec, qty: Dec, min_notional: Dec) -> (r: Option<bool>)
    requires
        price.wf(),
        qty.wf(),
        min_notional.wf(),
    ensures
        r == clears_minimum(price@, qty@, min_notional@),
        r == Some(true) ==> {
            let n = decimal_product(price@, qty@)->0;
            let m = decimal_sum(n, (1int, 12nat))->0;
            n.0 >= 0 ==> near_sum(n, (1int, 12nat), m) && value(min_notional@) <= value(m)
        },
        r == Some(false) ==> {
            let n = decimal_product(price@, qty@)->0;
            let m = decimal_sum(n, (1int, 12nat))->0;
            n.0 >= 0 ==> near_sum(n, (1int, 12nat), m) && value(min_notional@) > value(m)
        },
{
    match notional_dec(price, qty) {
        Some(n) => match dec_add(n, tolerance_usdt()) {
            Some(m) => {
                proof {
                    lemma_order(min_notional@, m@);
                }
                Some(dec_le(min_notional, m))
            },
            None => None,
        },
        None => None,
    }
}

/// A target value is never above the equity.
pub fn clamp_target_notional(target: i128, equity_usdt: i128) -> (r: i128)
    ensures
        r == min_of(target as int, equity_usdt as int),
{
    min_fixed(target, equity_usdt)
}

/// The most that can be sold of `btc_free`.
pub fn max_sell_qty(btc_free: i128, step_size: i128) -> (r: i128)
    requires
        bounded(btc_free as int),
        bounded(step_size as int),
    ensures
        r == step_down(btc_free as int, step_size as int),
        -2 * LIMIT <= r <= btc_free,
{
    round_down_to_step(btc_free, step_size)
}

/// The quantity to sell for `target_notional`: no more than is free.
pub open spec fn sell_qty(price: int, target_notional: int, btc_free: int, step_size: int) -> int {
    min_of(
        step_down(quotient(target_notional, price), step_size),
        step_down(btc_free, step_size),
    )
}

/// The quantity whose value is `target_notional`, rounded down to the step, but
/// no more than is free. The price has to be positive, and the raw quantity
/// within the range of the arithmetic.
pub fn sell_qty_for_target_notional(
    price: i128,
    target_notional: i128,
    btc_free: i128,
    step_size: i128,
) -> (r: i128)
    requires
        0 < price <= LIMIT,
        bounded(target_notional as int),
        bounded(quotient(target_notional as int, price as int)),
        bounded(btc_free as int),
        bounded(step_size as int),
    ensures
        r == sell_qty(
            price as int,
            target_notional as int,
            btc_free as int,
            step_size as int,
        ),
        r <= btc_free,
{
    let raw: i128 = div_fixed(target_notional, price);
    let qty: i128 = round_down_to_step(raw, step_size);
    min_fixed(qty, max_sell_qty(btc_free, step_size))
}

/// Refuses to sell nothing, and to sell over `10^-12` more than is free.
pub fn ensure_affordable_sell(qty: i128, btc_free: i128) -> (r: Result<(), SizeError>)
    requires
        bounded(qty as int),
        bounded(btc_free as int),
    ensures
        r == (if qty <= 0 {
            Err(SizeError::NothingToSell)
        } else if qty - btc_free > 1 {
            Err(SizeError::NotEnoughFree { qty, btc_free })
        } else {
            Ok(())
        }),
        r is Ok <==> 0 < qty <= btc_free + 1,
        r is Err && qty > 0 ==> r->Err_0 is NotEnoughFree,
{
    if qty <= 0 {
        return Err(SizeError::NothingToSell);
    }
    if qty - btc_free > 1 {
        return Err(SizeError::NotEnoughFree { qty, btc_free });
    }
    Ok(())
}

/// An order is too small exactly where its worth and one step of `10^-12` are under the
/// minimum.
pub proof fn law_minimum_is_on_the_worth(price: int, qty: int, min_notional: int)
    ensures
        below_minimum(price, qty, min_notional) <==> price * qty < (min_notional - 1)
            * 1_000_000_000_000,
        price * qty >= min_notional * ONE ==> !below_minimum(price, qty, min_notional),
{
}

/// What is sold is in whole steps, is no more than is free and no more than the target is
/// worth, and one step more would pass one of them.
pub proof fn law_sale_is_the_most_that_fits(
    price: int,
    target_notional: int,
    btc_free: int,
    step_size: int,
)
    requires
        price > 0,
        step_size > 0,
    ensures
        ({
            let q = sell_qty(price, target_notional, btc_free, step_size);
            &&& q % step_size == 0
            &&& q <= btc_free
            &&& 2 * (q * price) <= 2 * target_notional * ONE + price
            &&& q + step_size > btc_free || 2 * ((q + step_size) * price) > 2 * target_notional
                * ONE - price
        }),
{
    let raw = quotient(target_notional, price);
    crate::fixed::lemma_round_div_error(target_notional * ONE, price);
    law_step_down(raw, step_size);
    law_step_down(btc_free, step_size);
    let q = sell_qty(price, target_notional, btc_free, step_size);
    assert(q * price <= raw * price) by (nonlinear_arith)
        requires
            q <= raw,
            price > 0,
    ;
    if q == step_down(raw, step_size) {
        assert((q + step_size) * price > raw * price) by (nonlinear_arith)
            requires
                q + step_size > raw,
                price > 0,
        ;
    }
}

} // verus!
