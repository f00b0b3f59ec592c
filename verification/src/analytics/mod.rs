//! Post-trade analytics over the executions of one order.

pub mod metrics;

use vstd::prelude::*;
use vstd::pervasive::unreached;
use vstd::string::StringExecFns;
use crate::decimal::{Decimal, decimal_product, decimal_quotient, decimal_sum};
use crate::text::{append_usize, nat_text};
use crate::types::{ExecutionResult, ExecutionResultView, RoutingResult, RoutingResultView, execution_views};

verus! {

/// The sum of price times quantity over the executions, added up in their
/// order from zero. `None` where an operation has no result.
pub open spec fn value_traded(results: Seq<ExecutionResultView>) -> Option<Decimal>
    decreases results.len(),
{
    if results.len() == 0 {
        Some(Decimal::from_parts(0, 0))
    } else {
        match value_traded(results.drop_last()) {
            None => None,
            Some(sum) => match decimal_product(
                results.last().executed_price,
                results.last().executed_quantity,
            ) {
                None => None,
                Some(value) => decimal_sum(sum, value),
            },
        }
    }
}

/// The sum of the executed quantities, added up in their order from zero.
/// `None` where an addition has no result.
pub open spec fn quantity_executed(results: Seq<ExecutionResultView>) -> Option<Decimal>
    decreases results.len(),
{
    if results.len() == 0 {
        Some(Decimal::from_parts(0, 0))
    } else {
        match quantity_executed(results.drop_last()) {
            None => None,
            Some(sum) => decimal_sum(sum, results.last().executed_quantity),
        }
    }
}

/// The sum of the fees, added up in their order from zero. `None` where an
/// addition has no result.
pub open spec fn fees_paid(results: Seq<ExecutionResultView>) -> Option<Decimal>
    decreases results.len(),
{
    if results.len() == 0 {
        Some(Decimal::from_parts(0, 0))
    } else {
        match fees_paid(results.drop_last()) {
            None => None,
            Some(sum) => decimal_sum(sum, results.last().fees),
        }
    }
}

/// The average execution price: value traded over quantity executed; zero
/// where there is no execution or no quantity.
pub open spec fn average_price_outcome(results: Seq<ExecutionResultView>) -> Option<Decimal> {
    if results.len() == 0 {
        Some(Decimal::from_parts(0, 0))
    } else {
        match value_traded(results) {
            None => None,
            Some(value) => match quantity_executed(results) {
                None => None,
                Some(quantity) => if quantity.units() > 0 {
                    decimal_quotient(value, quantity)
                } else {
                    Some(Decimal::from_parts(0, 0))
                },
            },
        }
    }
}

/// The fill rate in percent: quantity executed over the quantity ordered,
/// times 100; zero where the quantity ordered is not positive.
pub open spec fn fill_rate_outcome(
    results: Seq<ExecutionResultView>,
    original_quantity: Decimal,
) -> Option<Decimal> {
    match quantity_executed(results) {
        None => None,
        Some(filled) => if original_quantity.units() > 0 {
            match decimal_quotient(filled, original_quantity) {
                None => None,
                Some(ratio) => decimal_product(ratio, Decimal::from_parts(100, 0)),
            }
        } else {
            Some(Decimal::from_parts(0, 0))
        },
    }
}

/// The text of an execution report for the given figures, each already as
/// text.
pub open spec fn report_text(
    average_price: Seq<char>,
    expected_price: Seq<char>,
    total_fees: Seq<char>,
    fill_rate: Seq<char>,
    estimated_slippage: Seq<char>,
    exchanges_used: nat,
) -> Seq<char> {
    "Execution Report:\n- Average Price: "@ + average_price + "\n- Expected Price: "@
        + expected_price + "\n- Total Fees: "@ + total_fees + "\n- Fill Rate: "@ + fill_rate
        + "%\n- Estimated Slippage: "@ + estimated_slippage + "%\n- Exchanges Used: "@ + nat_text(
        exchanges_used,
    )
}

/// The execution report for a routing plan and its executions: prices, fees
/// and fill rate with two places, the slippage with four. `None` where one
/// of its figures has no result or is too long to print.
pub open spec fn report_outcome(results: Seq<ExecutionResultView>, routing: RoutingResultView) -> Option<
    Seq<char>,
> {
    match (
        average_price_outcome(results),
        fees_paid(results),
        fill_rate_outcome(results, routing.total_quantity),
    ) {
        (Some(average), Some(fees), Some(rate)) => match (
            average.fixed_text(2),
            routing.average_price.fixed_text(2),
            fees.fixed_text(2),
            rate.fixed_text(2),
            routing.estimated_slippage.fixed_text(4),
        ) {
            (Some(average), Some(expected), Some(fees), Some(rate), Some(slippage)) => Some(
                report_text(average, expected, fees, rate, slippage, routing.splits.len()),
            ),
            _ => None,
        },
        _ => None,
    }
}

/// The view of a text that may be missing.
pub open spec fn text_view(text: Option<String>) -> Option<Seq<char>> {
    match text {
        Some(text) => Some(text@),
        None => None,
    }
}

/// Collects the executions of an order and derives execution quality from
/// them.
pub struct ExecutionAnalytics {
    results: Vec<ExecutionResult>,
}

impl View for ExecutionAnalytics {
    type V = Seq<ExecutionResultView>;

    closed spec fn view(&self) -> Seq<ExecutionResultView> {
        execution_views(self.results@)
    }
}

impl ExecutionAnalytics {
    /// Analytics without any execution yet.
    pub fn new() -> (r: ExecutionAnalytics)
        ensures
            r@ == Seq::<ExecutionResultView>::empty(),
    {
        let r = ExecutionAnalytics { results: Vec::new() };
        assert(r@ =~= Seq::<ExecutionResultView>::empty());
        r
    }

    /// Adds an execution behind those already held.
    pub fn add_result(&mut self, result: ExecutionResult)
        ensures
            final(self)@ == old(self)@.push(result@),
    {
        self.results.push(result);
        assert(self@ =~= old(self)@.push(result@));
    }

    /// The number of executions held.
    pub fn len(&self) -> (n: usize)
        ensures
            n == self@.len(),
    {
        self.results.len()
    }

    /// The sum of price times quantity over the executions, or `None` where
    /// an operation has no result.
    fn sum_value(&self) -> (r: Option<Decimal>)
        ensures
            r == value_traded(self@),
    {
        let ghost views = self@;
        let n = self.results.len();
        let mut sum = Decimal::zero();
        let mut i: usize = 0;
        assert(views.take(0) =~= Seq::<ExecutionResultView>::empty());
        while i < n
            invariant
                i <= n,
                n == self.results@.len(),
                views == execution_views(self.results@),
                value_traded(views.take(i as int)) == Some(sum),
            decreases n - i,
        {
            proof {
                assert(views.take(i + 1).drop_last() =~= views.take(i as int));
                assert(views.take(i + 1).last() == self.results@[i as int]@);
            }
            let value = self.results[i].executed_price.checked_mul(
                self.results[i].executed_quantity,
            );
            let next = match value {
                Some(value) => sum.checked_add(value),
                None => None,
            };
            match next {
                Some(next) => {
                    sum = next;
                },
                None => {
                    proof {
                        lemma_value_undefined(views, (i + 1) as nat);
                    }
                    return None;
                },
            }
            i = i + 1;
        }
        assert(views.take(n as int) =~= views);
        Some(sum)
    }

    /// The sum of the executed quantities, or `None` where an addition has
    /// no result.
    fn sum_quantity(&self) -> (r: Option<Decimal>)
        ensures
            r == quantity_executed(self@),
    {
        let ghost views = self@;
        let n = self.results.len();
        let mut sum = Decimal::zero();
        let mut i: usize = 0;
        assert(views.take(0) =~= Seq::<ExecutionResultView>::empty());
        while i < n
            invariant
                i <= n,
                n == self.results@.len(),
                views == execution_views(self.results@),
                quantity_executed(views.take(i as int)) == Some(sum),
            decreases n - i,
        {
            proof {
                assert(views.take(i + 1).drop_last() =~= views.take(i as int));
                assert(views.take(i + 1).last() == self.results@[i as int]@);
            }
            match sum.checked_add(self.results[i].executed_quantity) {
                Some(next) => {
                    sum = next;
                },
                None => {
                    proof {
                        lemma_quantity_undefined(views, (i + 1) as nat);
                    }
                    return None;
                },
            }
            i = i + 1;
        }
        assert(views.take(n as int) =~= views);
        Some(sum)
    }

    /// The average execution price, or `None` where an operation on the
    /// amounts has no result.
    fn average_execution_price_checked(&self) -> (r: Option<Decimal>)
        ensures
            r == average_price_outcome(self@),
    {
        if self.results.len() == 0 {
            return Some(Decimal::zero());
        }
        let value = match self.sum_value() {
            Some(value) => value,
            None => {
                return None;
            },
        };
        let quantity = match self.sum_quantity() {
            Some(quantity) => quantity,
            None => {
                return None;
            },
        };
        if quantity > Decimal::zero() {
            value.checked_div(quantity)
        } else {
            Some(Decimal::zero())
        }
    }

    /// The average execution price: value traded over quantity executed, and
    /// zero where there is no execution or no quantity.
    ///
    /// Every operation on the amounts must have a result;
    /// [`Self::try_average_execution_price`] tests that.
    pub fn average_execution_price(&self) -> (r: Decimal)
        requires
            average_price_outcome(self@) is Some,
        ensures
            average_price_outcome(self@) == Some(r),
    {
        match self.average_execution_price_checked() {
            Some(price) => price,
            None => unreached(),
        }
    }

    /// The average execution price as [`Self::average_execution_price`] gives
    /// it, or `None` where an operation on the amounts has no result.
    pub fn try_average_execution_price(&self) -> (r: Option<Decimal>)
        ensures
            r == average_price_outcome(self@),
    {
        match self.average_execution_price_checked() {
            Some(_) => Some(self.average_execution_price()),
            None => None,
        }
    }

    /// The fees paid in total, or `None` where an addition has no result.
    fn total_fees_checked(&self) -> (r: Option<Decimal>)
        ensures
            r == fees_paid(self@),
    {
        let ghost views = self@;
        let n = self.results.len();
        let mut sum = Decimal::zero();
        let mut i: usize = 0;
        assert(views.take(0) =~= Seq::<ExecutionResultView>::empty());
        while i < n
            invariant
                i <= n,
                n == self.results@.len(),
                views == execution_views(self.results@),
                fees_paid(views.take(i as int)) == Some(sum),
            decreases n - i,
        {
            proof {
                assert(views.take(i + 1).drop_last() =~= views.take(i as int));
                assert(views.take(i + 1).last() == self.results@[i as int]@);
            }
            match sum.checked_add(self.results[i].fees) {
                Some(next) => {
                    sum = next;
                },
                None => {
                    proof {
                        lemma_fees_undefined(views, (i + 1) as nat);
                    }
                    return None;
                },
            }
            i = i + 1;
        }
        assert(views.take(n as int) =~= views);
        Some(sum)
    }

    /// The fees paid in total.
    ///
    /// Every addition must have a result; [`Self::try_total_fees`] tests
    /// that.
    pub fn total_fees(&self) -> (r: Decimal)
        requires
            fees_paid(self@) is Some,
        ensures
            fees_paid(self@) == Some(r),
    {
        match self.total_fees_checked() {
            Some(fees) => fees,
            None => unreached(),
        }
    }

    /// The fees paid in total as [`Self::total_fees`] gives them, or `None`
    /// where an addition has no result.
    pub fn try_total_fees(&self) -> (r: Option<Decimal>)
        ensures
            r == fees_paid(self@),
    {
        match self.total_fees_checked() {
            Some(_) => Some(self.total_fees()),
            None => None,
        }
    }

    /// The fill rate in percent of the quantity ordered, or `None` where an
    /// operation on the amounts has no result.
    fn fill_rate_checked(&self, original_quantity: Decimal) -> (r: Option<Decimal>)
        ensures
            r == fill_rate_outcome(self@, original_quantity),
    {
        let filled = match self.sum_quantity() {
            Some(filled) => filled,
            None => {
                return None;
            },
        };
        if original_quantity > Decimal::zero() {
            match filled.checked_div(original_quantity) {
                None => None,
                Some(ratio) => ratio.checked_mul(Decimal::new(100, 0)),
            }
        } else {
            Some(Decimal::zero())
        }
    }

    /// The fill rate in percent of the quantity ordered, and zero where that
    /// quantity is not positive.
    ///
    /// Every operation on the amounts must have a result;
    /// [`Self::try_fill_rate`] tests that.
    pub fn fill_rate(&self, original_quantity: Decimal) -> (r: Decimal)
        requires
            fill_rate_outcome(self@, original_quantity) is Some,
        ensures
            fill_rate_outcome(self@, original_quantity) == Some(r),
    {
        match self.fill_rate_checked(original_quantity) {
            Some(rate) => rate,
            None => unreached(),
        }
    }

    /// The fill rate as [`Self::fill_rate`] gives it, or `None` where an
    /// operation on the amounts has no result.
    pub fn try_fill_rate(&self, original_quantity: Decimal) -> (r: Option<Decimal>)
        ensures
            r == fill_rate_outcome(self@, original_quantity),
    {
        match self.fill_rate_checked(original_quantity) {
            Some(_) => Some(self.fill_rate(original_quantity)),
            None => None,
        }
    }

    /// The execution report for a routing plan, or `None` where one of its
    /// figures has no result or is too long to print.
    fn generate_report_checked(&self, routing: &RoutingResult) -> (r: Option<String>)
        ensures
            text_view(r) == report_outcome(self@, routing@),
    {
        let average = match self.average_execution_price_checked() {
            Some(average) => average,
            None => {
                return None;
            },
        };
        let fees = match self.total_fees_checked() {
            Some(fees) => fees,
            None => {
                return None;
            },
        };
        let rate = match self.fill_rate_checked(routing.total_quantity) {
            Some(rate) => rate,
            None => {
                return None;
            },
        };
        let average = match average.try_to_fixed(2) {
            Some(text) => text,
            None => {
                return None;
            },
        };
        let expected = match routing.average_price.try_to_fixed(2) {
            Some(text) => text,
            None => {
                return None;
            },
        };
        let fees = match fees.try_to_fixed(2) {
            Some(text) => text,
            None => {
                return None;
            },
        };
        let rate = match rate.try_to_fixed(2) {
            Some(text) => text,
            None => {
                return None;
            },
        };
        let slippage = match routing.estimated_slippage.try_to_fixed(4) {
            Some(text) => text,
            None => {
                return None;
            },
        };
        let mut report = String::from_str("Execution Report:\n- Average Price: ");
        report.append(average.as_str());
        report.append("\n- Expected Price: ");
        report.append(expected.as_str());
        report.append("\n- Total Fees: ");
        report.append(fees.as_str());
        report.append("\n- Fill Rate: ");
        report.append(rate.as_str());
        report.append("%\n- Estimated Slippage: ");
        report.append(slippage.as_str());
        report.append("%\n- Exchanges Used: ");
        append_usize(&mut report, routing.splits.len());
        Some(report)
    }

    /// The execution report for a routing plan: average and expected price,
    /// fees, fill rate, estimated slippage and the number of splits.
    ///
    /// Every figure must have a result and be short enough to print;
    /// [`Self::try_generate_report`] tests both.
    pub fn generate_report(&self, routing: &RoutingResult) -> (r: String)
        requires
            report_outcome(self@, routing@) is Some,
        ensures
            report_outcome(self@, routing@) == Some(r@),
    {
        match self.generate_report_checked(routing) {
            Some(report) => report,
            None => unreached(),
        }
    }

    /// The execution report as [`Self::generate_report`] gives it, or `None`
    /// where one of its figures has no result or is too long to print.
    pub fn try_generate_report(&self, routing: &RoutingResult) -> (r: Option<String>)
        ensures
            text_view(r) == report_outcome(self@, routing@),
    {
        match self.generate_report_checked(routing) {
            Some(_) => Some(self.generate_report(routing)),
            None => None,
        }
    }
}

/// Once an operation has had no result, the value traded has none.
proof fn lemma_value_undefined(results: Seq<ExecutionResultView>, i: nat)
    requires
        i <= results.len(),
        value_traded(results.take(i as int)) is None,
    ensures
        value_traded(results) is None,
    decreases results.len(),
{
    if i < results.len() {
        assert(results.drop_last().take(i as int) =~= results.take(i as int));
        lemma_value_undefined(results.drop_last(), i);
    } else {
        assert(results.take(i as int) =~= results);
    }
}

/// Once an addition has had no result, the quantity executed has none.
proof fn lemma_quantity_undefined(results: Seq<ExecutionResultView>, i: nat)
    requires
        i <= results.len(),
        quantity_executed(results.take(i as int)) is None,
    ensures
        quantity_executed(results) is None,
    decreases results.len(),
{
    if i < results.len() {
        assert(results.drop_last().take(i as int) =~= results.take(i as int));
        lemma_quantity_undefined(results.drop_last(), i);
    } else {
        assert(results.take(i as int) =~= results);
    }
}

/// Once an addition has had no result, the fees paid have none.
proof fn lemma_fees_undefined(results: Seq<ExecutionResultView>, i: nat)
    requires
        i <= results.len(),
        fees_paid(results.take(i as int)) is None,
    ensures
        fees_paid(results) is None,
    decreases results.len(),
{
    if i < results.len() {
        assert(results.drop_last().take(i as int) =~= results.take(i as int));
        lemma_fees_undefined(results.drop_last(), i);
    } else {
        assert(results.take(i as int) =~= results);
    }
}

} // verus!
