//! Simulated executions: what a split would have cost had it traded at a
//! price slightly off the expected one, with a fee on the value traded.
//!
//! The time of the simulation is read from the clock. What a simulation gives
//! for a given reading of the clock is [`execute_at`], which is exact.

use vstd::prelude::*;
use vstd::pervasive::unreached;
use vstd::string::StringExecFns;
use crate::decimal::{Decimal, decimal_product, decimal_quotient, decimal_sum};
use crate::text::{append_i64, int_text};
use crate::types::{ExecutionResult, ExecutionResultView, OrderSplit, OrderSplitView, Timestamp};

verus! {

/// The price drift of a plain simulation: 0.0001, one hundredth of a percent.
pub open spec fn default_drift() -> Decimal {
    Decimal::from_parts(1, 4)
}

/// The fee rate: 0.001, a tenth of a percent of the value traded.
pub open spec fn fee_rate() -> Decimal {
    Decimal::from_parts(1, 3)
}

/// The price at which a split executes under a drift: the expected price
/// times one plus the drift. `None` where an operation has no result.
pub open spec fn drifted_price(expected_price: Decimal, drift: Decimal) -> Option<Decimal> {
    match decimal_sum(Decimal::from_parts(10, 1), drift) {
        None => None,
        Some(factor) => decimal_product(expected_price, factor),
    }
}

/// The fee on an execution: quantity times price times the fee rate. `None`
/// where an operation has no result.
pub open spec fn fee_on(quantity: Decimal, executed_price: Decimal) -> Option<Decimal> {
    match decimal_product(quantity, executed_price) {
        None => None,
        Some(value) => decimal_product(value, fee_rate()),
    }
}

/// The identifier of a simulated order: `ORDER_` and the second at which it
/// was simulated.
pub open spec fn order_id_text(seconds: int) -> Seq<char> {
    "ORDER_"@ + int_text(seconds)
}

/// The execution of a split under a drift, simulated at the given second and
/// stamped with the given time. `None` where an operation on the amounts has
/// no result.
pub open spec fn execution_outcome(
    split: OrderSplitView,
    drift: Decimal,
    seconds: int,
    timestamp: Timestamp,
) -> Option<ExecutionResultView> {
    match drifted_price(split.expected_price, drift) {
        None => None,
        Some(executed_price) => match fee_on(split.quantity, executed_price) {
            None => None,
            Some(fees) => Some(
                ExecutionResultView {
                    order_id: order_id_text(seconds),
                    exchange: split.exchange,
                    executed_quantity: split.quantity,
                    executed_price,
                    fees,
                    timestamp,
                },
            ),
        },
    }
}

/// The execution is what simulating the split under the drift gives at the
/// given second, with the time stamp that the execution bears.
pub open spec fn simulated_at(
    execution: ExecutionResultView,
    split: OrderSplitView,
    drift: Decimal,
    seconds: int,
) -> bool {
    execution_outcome(split, drift, seconds, execution.timestamp) == Some(execution)
}

/// Simulating the split under the drift has a result, whenever it is done.
pub open spec fn can_simulate(split: OrderSplitView, drift: Decimal) -> bool {
    drifted_price(split.expected_price, drift) matches Some(price) && fee_on(split.quantity, price) is Some
}

/// The drift that a slippage in basis points stands for: a ten-thousandth of
/// it. `None` where the division has no result.
pub open spec fn drift_of(slippage_bps: Decimal) -> Option<Decimal> {
    decimal_quotient(slippage_bps, Decimal::from_parts(100000, 1))
}

/// The view of an execution that may be missing.
pub open spec fn execution_view(r: Option<ExecutionResult>) -> Option<ExecutionResultView> {
    match r {
        Some(execution) => Some(execution@),
        None => None,
    }
}

/// The price and the fee of a split under a drift, or `None` where an
/// operation has no result.
fn price_and_fee(split: &OrderSplit, drift: Decimal) -> (r: Option<(Decimal, Decimal)>)
    ensures
        r is Some <==> can_simulate(split@, drift),
        r matches Some((price, fees)) ==> drifted_price(split@.expected_price, drift) == Some(price)
            && fee_on(split@.quantity, price) == Some(fees),
{
    let factor = match Decimal::new(10, 1).checked_add(drift) {
        Some(factor) => factor,
        None => {
            return None;
        },
    };
    let price = match split.expected_price.checked_mul(factor) {
        Some(price) => price,
        None => {
            return None;
        },
    };
    let value = match split.quantity.checked_mul(price) {
        Some(value) => value,
        None => {
            return None;
        },
    };
    match value.checked_mul(Decimal::new(1, 3)) {
        Some(fees) => Some((price, fees)),
        None => None,
    }
}

/// The execution record for a price and a fee already computed.
fn record(split: &OrderSplit, price: Decimal, fees: Decimal, seconds: i64, timestamp: Timestamp) -> (r:
    ExecutionResult)
    ensures
        r@ == (ExecutionResultView {
            order_id: order_id_text(seconds as int),
            exchange: split@.exchange,
            executed_quantity: split@.quantity,
            executed_price: price,
            fees,
            timestamp,
        }),
{
    let mut order_id = String::from_str("ORDER_");
    append_i64(&mut order_id, seconds);
    ExecutionResult {
        order_id,
        exchange: split.exchange.clone(),
        executed_quantity: split.quantity,
        executed_price: price,
        fees,
        timestamp,
    }
}

/// Simulates the execution of a split under a drift, at the given second and
/// with the given time stamp. Returns `None` where an operation on the
/// amounts has no result.
pub fn execute_at(split: &OrderSplit, drift: Decimal, seconds: i64, timestamp: Timestamp) -> (r: Option<
    ExecutionResult,
>)
    ensures
        execution_view(r) == execution_outcome(split@, drift, seconds as int, timestamp),
{
    match price_and_fee(split, drift) {
        Some((price, fees)) => Some(record(split, price, fees, seconds, timestamp)),
        None => None,
    }
}

/// Simulates the execution of a split under a drift, now. Returns `None`
/// where an operation on the amounts has no result.
///
/// The clock is read twice, once for the identifier and once for the time
/// stamp, so the result is [`execution_outcome`] for some second and for the
/// time stamp it bears.
fn simulate_now(split: &OrderSplit, drift: Decimal) -> (r: Option<ExecutionResult>)
    ensures
        r is Some <==> can_simulate(split@, drift),
        r is Some ==> exists|seconds: int| simulated_at(r.unwrap()@, split@, drift, seconds),
{
    match price_and_fee(split, drift) {
        Some((price, fees)) => {
            let seconds = current_time().seconds;
            let timestamp = current_time();
            let r = Some(record(split, price, fees, seconds, timestamp));
            assert(simulated_at(r.unwrap()@, split@, drift, seconds as int));
            r
        },
        None => None,
    }
}

/// Simulates the execution of a split at a price 0.01% above the expected
/// one, now.
///
/// Every operation on the amounts must have a result;
/// [`try_simulate_execution`] tests that.
pub fn simulate_execution(split: &OrderSplit) -> (r: ExecutionResult)
    requires
        can_simulate(split@, default_drift()),
    ensures
        exists|seconds: int| simulated_at(r@, split@, default_drift(), seconds),
{
    match simulate_now(split, Decimal::new(1, 4)) {
        Some(execution) => execution,
        None => unreached(),
    }
}

/// Simulates the execution of a split as [`simulate_execution`] does, or
/// returns `None` where an operation on the amounts has no result.
pub fn try_simulate_execution(split: &OrderSplit) -> (r: Option<ExecutionResult>)
    ensures
        r is Some <==> can_simulate(split@, default_drift()),
        r is Some ==> exists|seconds: int|
            simulated_at(r.unwrap()@, split@, default_drift(), seconds),
{
    match price_and_fee(split, Decimal::new(1, 4)) {
        Some(_) => {
            let execution = simulate_execution(split);
            let ghost seconds = choose|seconds: int|
                simulated_at(execution@, split@, default_drift(), seconds);
            let r = Some(execution);
            assert(simulated_at(r.unwrap()@, split@, default_drift(), seconds));
            r
        },
        None => None,
    }
}

/// Simulates the execution of a split at a price off the expected one by the
/// given slippage in basis points, now.
///
/// Every operation on the amounts must have a result;
/// [`try_simulate_with_slippage`] tests that.
pub fn simulate_with_slippage(split: &OrderSplit, slippage_bps: Decimal) -> (r: ExecutionResult)
    requires
        drift_of(slippage_bps) matches Some(drift) && can_simulate(split@, drift),
    ensures
        exists|seconds: int|
            simulated_at(r@, split@, drift_of(slippage_bps).unwrap(), seconds),
{
    let drift = match slippage_bps.checked_div(Decimal::new(100000, 1)) {
        Some(drift) => drift,
        None => unreached(),
    };
    match simulate_now(split, drift) {
        Some(execution) => execution,
        None => unreached(),
    }
}

/// Simulates the execution of a split as [`simulate_with_slippage`] does, or
/// returns `None` where an operation on the amounts has no result.
pub fn try_simulate_with_slippage(split: &OrderSplit, slippage_bps: Decimal) -> (r: Option<
    ExecutionResult,
>)
    ensures
        r is Some <==> (drift_of(slippage_bps) matches Some(drift) && can_simulate(split@, drift)),
        r is Some ==> exists|seconds: int|
            simulated_at(r.unwrap()@, split@, drift_of(slippage_bps).unwrap(), seconds),
{
    let drift = match slippage_bps.checked_div(Decimal::new(100000, 1)) {
        Some(drift) => drift,
        None => {
            return None;
        },
    };
    match price_and_fee(split, drift) {
        Some(_) => {
            let execution = simulate_with_slippage(split, slippage_bps);
            let ghost seconds = choose|seconds: int|
                simulated_at(execution@, split@, drift, seconds);
            let r = Some(execution);
            assert(simulated_at(r.unwrap()@, split@, drift, seconds));
            r
        },
        None => None,
    }
}

/// `chrono::Utc::now`, as seconds since the Unix epoch and nanoseconds within
/// the second. Nothing is claimed of the reading. The call panics on a
/// machine whose clock stands before 1970.
#[verifier::external_body]
fn current_time() -> (r: Timestamp) {
    let now = chrono::Utc::now();
    Timestamp { seconds: now.timestamp(), nanoseconds: now.timestamp_subsec_nanos() }
}

} // verus!
