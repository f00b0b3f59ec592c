//! Measures of execution quality for a single fill.

use vstd::prelude::*;
use vstd::pervasive::unreached;
use crate::decimal::{Decimal, decimal_difference, decimal_product, decimal_quotient};

verus! {

/// The slippage in percent between an expected and an executed price: the
/// size of their gap relative to the expected price, times 100; zero where
/// the expected price is zero. `None` where an operation has no result.
pub open spec fn slippage_outcome(expected_price: Decimal, executed_price: Decimal) -> Option<
    Decimal,
> {
    if expected_price.units() == 0 {
        Some(Decimal::from_parts(0, 0))
    } else {
        match decimal_difference(executed_price, expected_price) {
            None => None,
            Some(gap) => match decimal_quotient(gap, expected_price) {
                None => None,
                Some(ratio) => decimal_product(ratio.spec_abs(), Decimal::from_parts(100, 0)),
            },
        }
    }
}

/// The implementation shortfall: the gap between execution and decision
/// price, times the quantity. `None` where an operation has no result.
pub open spec fn shortfall_outcome(
    decision_price: Decimal,
    execution_price: Decimal,
    quantity: Decimal,
) -> Option<Decimal> {
    match decimal_difference(execution_price, decision_price) {
        None => None,
        Some(gap) => decimal_product(gap, quantity),
    }
}

/// The effective spread: twice the size of the gap between execution and mid
/// price. `None` where an operation has no result.
pub open spec fn spread_outcome(mid_price: Decimal, execution_price: Decimal) -> Option<Decimal> {
    match decimal_difference(execution_price, mid_price) {
        None => None,
        Some(gap) => decimal_product(gap.spec_abs(), Decimal::from_parts(2, 0)),
    }
}

/// The slippage between an expected and an executed price, or `None` where
/// an operation on them has no result.
fn slippage_checked(expected_price: Decimal, executed_price: Decimal) -> (r: Option<Decimal>)
    ensures
        r == slippage_outcome(expected_price, executed_price),
{
    if expected_price == Decimal::zero() {
        return Some(Decimal::zero());
    }
    match executed_price.checked_sub(expected_price) {
        None => None,
        Some(gap) => match gap.checked_div(expected_price) {
            None => None,
            Some(ratio) => ratio.abs().checked_mul(Decimal::new(100, 0)),
        },
    }
}

/// The slippage between an expected and an executed price.
///
/// Every operation on the prices must have a result;
/// [`try_calculate_slippage`] tests that.
pub fn calculate_slippage(expected_price: Decimal, executed_price: Decimal) -> (r: Decimal)
    requires
        slippage_outcome(expected_price, executed_price) is Some,
    ensures
        slippage_outcome(expected_price, executed_price) == Some(r),
{
    match slippage_checked(expected_price, executed_price) {
        Some(slippage) => slippage,
        None => unreached(),
    }
}

/// The slippage between an expected and an executed price as
/// [`calculate_slippage`] gives it, or `None` where an operation on the
/// prices has no result.
pub fn try_calculate_slippage(expected_price: Decimal, executed_price: Decimal) -> (r: Option<
    Decimal,
>)
    ensures
        r == slippage_outcome(expected_price, executed_price),
{
    match slippage_checked(expected_price, executed_price) {
        Some(_) => Some(calculate_slippage(expected_price, executed_price)),
        None => None,
    }
}

/// The implementation shortfall, or `None` where an operation on the amounts
/// has no result.
fn shortfall_checked(decision_price: Decimal, execution_price: Decimal, quantity: Decimal) -> (r:
    Option<Decimal>)
    ensures
        r == shortfall_outcome(decision_price, execution_price, quantity),
{
    match execution_price.checked_sub(decision_price) {
        None => None,
        Some(gap) => gap.checked_mul(quantity),
    }
}

/// The implementation shortfall.
///
/// Every operation on the amounts must have a result;
/// [`try_implementation_shortfall`] tests that.
pub fn implementation_shortfall(
    decision_price: Decimal,
    execution_price: Decimal,
    quantity: Decimal,
) -> (r: Decimal)
    requires
        shortfall_outcome(decision_price, execution_price, quantity) is Some,
    ensures
        shortfall_outcome(decision_price, execution_price, quantity) == Some(r),
{
    match shortfall_checked(decision_price, execution_price, quantity) {
        Some(shortfall) => shortfall,
        None => unreached(),
    }
}

/// The implementation shortfall as [`implementation_shortfall`] gives it, or
/// `None` where an operation on the amounts has no result.
pub fn try_implementation_shortfall(
    decision_price: Decimal,
    execution_price: Decimal,
    quantity: Decimal,
) -> (r: Option<Decimal>)
    ensures
        r == shortfall_outcome(decision_price, execution_price, quantity),
{
    match shortfall_checked(decision_price, execution_price, quantity) {
        Some(_) => Some(implementation_shortfall(decision_price, execution_price, quantity)),
        None => None,
    }
}

/// The effective spread, or `None` where an operation on the prices has no
/// result.
fn spread_checked(mid_price: Decimal, execution_price: Decimal) -> (r: Option<Decimal>)
    ensures
        r == spread_outcome(mid_price, execution_price),
{
    match execution_price.checked_sub(mid_price) {
        None => None,
        Some(gap) => gap.abs().checked_mul(Decimal::new(2, 0)),
    }
}

/// The effective spread.
///
/// Every operation on the prices must have a result; [`try_effective_spread`]
/// tests that.
pub fn effective_spread(mid_price: Decimal, execution_price: Decimal) -> (r: Decimal)
    requires
        spread_outcome(mid_price, execution_price) is Some,
    ensures
        spread_outcome(mid_price, execution_price) == Some(r),
{
    match spread_checked(mid_price, execution_price) {
        Some(spread) => spread,
        None => unreached(),
    }
}

/// The effective spread as [`effective_spread`] gives it, or `None` where an
/// operation on the prices has no result.
pub fn try_effective_spread(mid_price: Decimal, execution_price: Decimal) -> (r: Option<Decimal>)
    ensures
        r == spread_outcome(mid_price, execution_price),
{
    match spread_checked(mid_price, execution_price) {
        Some(_) => Some(effective_spread(mid_price, execution_price)),
        None => None,
    }
}

} // verus!
