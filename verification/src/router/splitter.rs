//! Even splits of an order into a given number of slices, by volume or by
//! time. Both are placeholders for strategies that would weigh the slices:
//! every slice gets the same share and a fixed reference price.

use vstd::prelude::*;
use vstd::pervasive::unreached;
use vstd::string::StringExecFns;
use crate::decimal::{Decimal, decimal_quotient};
use crate::text::{append_usize, nat_text};
use crate::types::{Order, OrderSplit, OrderSplitView, OrderView, split_views};

verus! {

/// The reference price that every slice carries: 50000.0.
pub open spec fn reference_price() -> Decimal {
    Decimal::from_parts(500000, 1)
}

/// The `i`-th of the slices, counted from 0: named by the prefix and its
/// number, counted from 1.
pub open spec fn slice(prefix: Seq<char>, share: Decimal, i: int) -> OrderSplitView {
    OrderSplitView {
        exchange: prefix + nat_text((i + 1) as nat),
        quantity: share,
        expected_price: reference_price(),
    }
}

/// `count` slices of the same share.
pub open spec fn slices(prefix: Seq<char>, share: Decimal, count: nat) -> Seq<OrderSplitView> {
    Seq::new(count, |i: int| slice(prefix, share, i))
}

/// An order's quantity divided evenly over `count` slices, or `None` where
/// the division has no result, as for no slice at all.
pub open spec fn even_split(order: OrderView, prefix: Seq<char>, count: nat) -> Option<
    Seq<OrderSplitView>,
> {
    match decimal_quotient(order.quantity, Decimal::from_parts(count as int, 0)) {
        None => None,
        Some(share) => Some(slices(prefix, share, count)),
    }
}

/// Divides an order's quantity evenly over `count` slices named by the
/// prefix, or returns `None` where the division has no result.
fn split_evenly(order: &Order, prefix: &str, count: usize) -> (r: Option<Vec<OrderSplit>>)
    ensures
        match r {
            Some(splits) => even_split(order@, prefix@, count as nat) == Some(
                split_views(splits@),
            ),
            None => even_split(order@, prefix@, count as nat) is None,
        },
{
    let share = match order.quantity.checked_div(Decimal::from_usize(count)) {
        Some(share) => share,
        None => {
            return None;
        },
    };
    let mut splits: Vec<OrderSplit> = Vec::new();
    let mut i: usize = 0;
    while i < count
        invariant
            i <= count,
            splits@.len() == i,
            forall|j: int| 0 <= j < i ==> (#[trigger] splits@[j])@ == slice(prefix@, share, j),
        decreases count - i,
    {
        let mut name = String::from_str(prefix);
        append_usize(&mut name, i + 1);
        splits.push(OrderSplit { exchange: name, quantity: share, expected_price: Decimal::new(500000, 1) });
        i = i + 1;
    }
    assert(split_views(splits@) =~= slices(prefix@, share, count as nat));
    Some(splits)
}

/// What [`vwap_split`] gives: slices named `Exchange_1`, `Exchange_2`, ...
pub open spec fn vwap_outcome(order: OrderView, num_splits: nat) -> Option<Seq<OrderSplitView>> {
    even_split(order, "Exchange_"@, num_splits)
}

/// What [`twap_split`] gives: slices named `Interval_1`, `Interval_2`, ...
pub open spec fn twap_outcome(order: OrderView, time_intervals: nat) -> Option<
    Seq<OrderSplitView>,
> {
    even_split(order, "Interval_"@, time_intervals)
}

/// Splits an order by volume into `num_splits` equal slices.
///
/// The quantity must be divisible by that number, which it is not by zero;
/// [`try_vwap_split`] tests that.
pub fn vwap_split(order: &Order, num_splits: usize) -> (r: Vec<OrderSplit>)
    requires
        vwap_outcome(order@, num_splits as nat) is Some,
    ensures
        vwap_outcome(order@, num_splits as nat) == Some(split_views(r@)),
{
    match split_evenly(order, "Exchange_", num_splits) {
        Some(splits) => splits,
        None => unreached(),
    }
}

/// Splits an order by volume as [`vwap_split`] does, or returns `None`
/// where the quantity cannot be divided by the number of slices.
pub fn try_vwap_split(order: &Order, num_splits: usize) -> (r: Option<Vec<OrderSplit>>)
    ensures
        match r {
            Some(splits) => vwap_outcome(order@, num_splits as nat) == Some(split_views(splits@)),
            None => vwap_outcome(order@, num_splits as nat) is None,
        },
{
    match order.quantity.checked_div(Decimal::from_usize(num_splits)) {
        Some(_) => Some(vwap_split(order, num_splits)),
        None => None,
    }
}

/// Splits an order over time into `time_intervals` equal slices.
///
/// The quantity must be divisible by that number, which it is not by zero;
/// [`try_twap_split`] tests that.
pub fn twap_split(order: &Order, time_intervals: usize) -> (r: Vec<OrderSplit>)
    requires
        twap_outcome(order@, time_intervals as nat) is Some,
    ensures
        twap_outcome(order@, time_intervals as nat) == Some(split_views(r@)),
{
    match split_evenly(order, "Interval_", time_intervals) {
        Some(splits) => splits,
        None => unreached(),
    }
}

/// Splits an order over time as [`twap_split`] does, or returns `None` where
/// the quantity cannot be divided by the number of slices.
pub fn try_twap_split(order: &Order, time_intervals: usize) -> (r: Option<Vec<OrderSplit>>)
    ensures
        match r {
            Some(splits) => twap_outcome(order@, time_intervals as nat) == Some(
                split_views(splits@),
            ),
            None => twap_outcome(order@, time_intervals as nat) is None,
        },
{
    match order.quantity.checked_div(Decimal::from_usize(time_intervals)) {
        Some(_) => Some(twap_split(order, time_intervals)),
        None => None,
    }
}

} // verus!
