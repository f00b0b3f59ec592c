//! Bookkeeping over many routing runs: the orders that were routed, what
//! became of each, and the figures that sum them up.

pub mod simulator;

use vstd::prelude::*;
use vstd::pervasive::unreached;
use vstd::string::StringExecFns;
use crate::decimal::{Decimal, decimal_quotient, decimal_sum};
use crate::text::{append_usize, nat_text};
use crate::types::{
    ExecutionResult,
    ExecutionResultView,
    Order,
    OrderView,
    RoutingResult,
    RoutingResultView,
    execution_views,
};

verus! {

/// One backtested run: the routing plan and the executions that came of it.
pub struct RunView {
    pub routing: RoutingResultView,
    pub executions: Seq<ExecutionResultView>,
}

/// What a [`BacktestEngine`] holds: the orders and the runs, each in the
/// order in which they were added.
pub struct BacktestView {
    pub orders: Seq<OrderView>,
    pub runs: Seq<RunView>,
}

/// The view of one run.
pub open spec fn run_view(run: (RoutingResult, Vec<ExecutionResult>)) -> RunView {
    RunView { routing: run.0@, executions: execution_views(run.1@) }
}

/// The sum of the estimated slippages of the runs, added up in their order
/// from zero. `None` where an addition has no result.
pub open spec fn slippage_sum(runs: Seq<RunView>) -> Option<Decimal>
    decreases runs.len(),
{
    if runs.len() == 0 {
        Some(Decimal::from_parts(0, 0))
    } else {
        match slippage_sum(runs.drop_last()) {
            None => None,
            Some(sum) => decimal_sum(sum, runs.last().routing.estimated_slippage),
        }
    }
}

/// The average of the estimated slippages of the runs; zero where there is
/// no run. `None` where an operation has no result.
pub open spec fn average_slippage_outcome(runs: Seq<RunView>) -> Option<Decimal> {
    if runs.len() == 0 {
        Some(Decimal::from_parts(0, 0))
    } else {
        match slippage_sum(runs) {
            None => None,
            Some(sum) => decimal_quotient(sum, Decimal::from_parts(runs.len() as int, 0)),
        }
    }
}

/// A sum of fees carried on over further executions. `None` where the sum
/// so far, or an addition, has no result.
pub open spec fn fees_added(start: Option<Decimal>, executions: Seq<ExecutionResultView>) -> Option<
    Decimal,
>
    decreases executions.len(),
{
    if executions.len() == 0 {
        start
    } else {
        match fees_added(start, executions.drop_last()) {
            None => None,
            Some(sum) => decimal_sum(sum, executions.last().fees),
        }
    }
}

/// The fees of all executions of all runs, added up from zero run by run
/// and, within a run, execution by execution.
pub open spec fn fees_of_runs(runs: Seq<RunView>) -> Option<Decimal>
    decreases runs.len(),
{
    if runs.len() == 0 {
        Some(Decimal::from_parts(0, 0))
    } else {
        fees_added(fees_of_runs(runs.drop_last()), runs.last().executions)
    }
}

/// The number of executions over all runs.
pub open spec fn execution_count(runs: Seq<RunView>) -> nat
    decreases runs.len(),
{
    if runs.len() == 0 {
        0
    } else {
        execution_count(runs.drop_last()) + runs.last().executions.len()
    }
}

/// The text of a backtest summary for the given figures, slippage and fees
/// already as text.
pub open spec fn summary_text(
    orders: nat,
    average_slippage: Seq<char>,
    total_fees: Seq<char>,
    executions: nat,
) -> Seq<char> {
    "Backtest Summary:\n- Total Orders: "@ + nat_text(orders) + "\n- Average Slippage: "@
        + average_slippage + "%\n- Total Fees: "@ + total_fees + "\n- Total Executions: "@
        + nat_text(executions)
}

/// The summary of a backtest: the average slippage with four places, the
/// fees with two. `None` where one of its figures has no result or is too
/// long to print, or the number of executions does not fit the machine's
/// word.
pub open spec fn summary_outcome(backtest: BacktestView) -> Option<Seq<char>> {
    match (average_slippage_outcome(backtest.runs), fees_of_runs(backtest.runs)) {
        (Some(slippage), Some(fees)) => match (slippage.fixed_text(4), fees.fixed_text(2)) {
            (Some(slippage), Some(fees)) => if execution_count(backtest.runs) <= usize::MAX {
                Some(
                    summary_text(
                        backtest.orders.len(),
                        slippage,
                        fees,
                        execution_count(backtest.runs),
                    ),
                )
            } else {
                None
            },
            _ => None,
        },
        _ => None,
    }
}

/// Backtesting engine for routing strategies: it keeps the orders that were
/// routed and, for each run, the plan and its executions.
pub struct BacktestEngine {
    orders: Vec<Order>,
    results: Vec<(RoutingResult, Vec<ExecutionResult>)>,
}

impl View for BacktestEngine {
    type V = BacktestView;

    closed spec fn view(&self) -> BacktestView {
        BacktestView {
            orders: self.orders@.map_values(|order: Order| order@),
            runs: self.results@.map_values(
                |run: (RoutingResult, Vec<ExecutionResult>)| run_view(run),
            ),
        }
    }
}

impl BacktestEngine {
    /// An engine that holds nothing yet.
    pub fn new() -> (r: BacktestEngine)
        ensures
            r@.orders == Seq::<OrderView>::empty(),
            r@.runs == Seq::<RunView>::empty(),
    {
        let r = BacktestEngine { orders: Vec::new(), results: Vec::new() };
        assert(r@.orders =~= Seq::<OrderView>::empty());
        assert(r@.runs =~= Seq::<RunView>::empty());
        r
    }

    /// Adds an order behind those already held.
    pub fn add_order(&mut self, order: Order)
        ensures
            final(self)@.orders == old(self)@.orders.push(order@),
            final(self)@.runs == old(self)@.runs,
    {
        self.orders.push(order);
        assert(self@.orders =~= old(self)@.orders.push(order@));
    }

    /// Adds a run, the plan and its executions, behind those already held.
    pub fn add_result(&mut self, routing: RoutingResult, executions: Vec<ExecutionResult>)
        ensures
            final(self)@.orders == old(self)@.orders,
            final(self)@.runs == old(self)@.runs.push(
                RunView { routing: routing@, executions: execution_views(executions@) },
            ),
    {
        let ghost run = RunView { routing: routing@, executions: execution_views(executions@) };
        self.results.push((routing, executions));
        assert(self@.runs =~= old(self)@.runs.push(run));
    }

    /// The sum of the estimated slippages, or `None` where an addition has
    /// no result.
    fn sum_slippage(&self) -> (r: Option<Decimal>)
        ensures
            r == slippage_sum(self@.runs),
    {
        let ghost runs = self@.runs;
        let n = self.results.len();
        let mut sum = Decimal::zero();
        let mut i: usize = 0;
        assert(runs.take(0) =~= Seq::<RunView>::empty());
        while i < n
            invariant
                i <= n,
                n == self.results@.len(),
                runs == self@.runs,
                slippage_sum(runs.take(i as int)) == Some(sum),
            decreases n - i,
        {
            proof {
                assert(runs.take(i + 1).drop_last() =~= runs.take(i as int));
                assert(runs.take(i + 1).last() == run_view(self.results@[i as int]));
            }
            match sum.checked_add(self.results[i].0.estimated_slippage) {
                Some(next) => {
                    sum = next;
                },
                None => {
                    proof {
                        lemma_slippage_undefined(runs, (i + 1) as nat);
                    }
                    return None;
                },
            }
            i = i + 1;
        }
        assert(runs.take(n as int) =~= runs);
        Some(sum)
    }

    /// The average of the estimated slippages over all runs, or `None` where
    /// an operation on them has no result.
    fn average_slippage_checked(&self) -> (r: Option<Decimal>)
        ensures
            r == average_slippage_outcome(self@.runs),
    {
        if self.results.len() == 0 {
            return Some(Decimal::zero());
        }
        match self.sum_slippage() {
            None => None,
            Some(sum) => sum.checked_div(Decimal::from_usize(self.results.len())),
        }
    }

    /// The average of the estimated slippages over all runs, and zero where
    /// there is no run.
    ///
    /// Every operation on the slippages must have a result;
    /// [`Self::try_average_slippage`] tests that.
    pub fn average_slippage(&self) -> (r: Decimal)
        requires
            average_slippage_outcome(self@.runs) is Some,
        ensures
            average_slippage_outcome(self@.runs) == Some(r),
    {
        match self.average_slippage_checked() {
            Some(average) => average,
            None => unreached(),
        }
    }

    /// The average slippage as [`Self::average_slippage`] gives it, or `None`
    /// where an operation on the slippages has no result.
    pub fn try_average_slippage(&self) -> (r: Option<Decimal>)
        ensures
            r == average_slippage_outcome(self@.runs),
    {
        match self.average_slippage_checked() {
            Some(_) => Some(self.average_slippage()),
            None => None,
        }
    }

    /// The fees of all executions of all runs, or `None` where an addition
    /// has no result.
    fn total_fees_checked(&self) -> (r: Option<Decimal>)
        ensures
            r == fees_of_runs(self@.runs),
    {
        let ghost runs = self@.runs;
        let n = self.results.len();
        let mut sum = Decimal::zero();
        let mut i: usize = 0;
        assert(runs.take(0) =~= Seq::<RunView>::empty());
        while i < n
            invariant
                i <= n,
                n == self.results@.len(),
                runs == self@.runs,
                fees_of_runs(runs.take(i as int)) == Some(sum),
            decreases n - i,
        {
            let executions = &self.results[i].1;
            let ghost views = execution_views(executions@);
            let ghost start = Some(sum);
            proof {
                assert(runs.take(i + 1).drop_last() =~= runs.take(i as int));
                assert(runs.take(i + 1).last() == run_view(self.results@[i as int]));
                assert(views.take(0) =~= Seq::<ExecutionResultView>::empty());
            }
            let m = executions.len();
            let mut j: usize = 0;
            while j < m
                invariant
                    j <= m,
                    m == executions@.len(),
                    i < n,
                    n == self.results@.len(),
                    runs == self@.runs,
                    views == execution_views(executions@),
                    runs.take(i + 1).last().executions == views,
                    fees_of_runs(runs.take(i + 1).drop_last()) == start,
                    fees_added(start, views.take(j as int)) == Some(sum),
                decreases m - j,
            {
                proof {
                    assert(views.take(j + 1).drop_last() =~= views.take(j as int));
                    assert(views.take(j + 1).last() == executions@[j as int]@);
                }
                match sum.checked_add(executions[j].fees) {
                    Some(next) => {
                        sum = next;
                    },
                    None => {
                        proof {
                            lemma_fees_added_undefined(start, views, (j + 1) as nat);
                            lemma_fees_undefined(runs, (i + 1) as nat);
                        }
                        return None;
                    },
                }
                j = j + 1;
            }
            assert(views.take(m as int) =~= views);
            i = i + 1;
        }
        assert(runs.take(n as int) =~= runs);
        Some(sum)
    }

    /// The fees of all executions of all runs.
    ///
    /// Every addition must have a result; [`Self::try_total_fees`] tests
    /// that.
    pub fn total_fees(&self) -> (r: Decimal)
        requires
            fees_of_runs(self@.runs) is Some,
        ensures
            fees_of_runs(self@.runs) == Some(r),
    {
        match self.total_fees_checked() {
            Some(fees) => fees,
            None => unreached(),
        }
    }

    /// The fees of all runs as [`Self::total_fees`] gives them, or `None`
    /// where an addition has no result.
    pub fn try_total_fees(&self) -> (r: Option<Decimal>)
        ensures
            r == fees_of_runs(self@.runs),
    {
        match self.total_fees_checked() {
            Some(_) => Some(self.total_fees()),
            None => None,
        }
    }

    /// The number of executions over all runs, or `None` where it does not
    /// fit the machine's word.
    fn count_executions(&self) -> (r: Option<usize>)
        ensures
            match r {
                Some(count) => count == execution_count(self@.runs),
                None => execution_count(self@.runs) > usize::MAX,
            },
    {
        let ghost runs = self@.runs;
        let n = self.results.len();
        let mut count: usize = 0;
        let mut i: usize = 0;
        assert(runs.take(0) =~= Seq::<RunView>::empty());
        while i < n
            invariant
                i <= n,
                n == self.results@.len(),
                runs == self@.runs,
                count == execution_count(runs.take(i as int)),
            decreases n - i,
        {
            proof {
                assert(runs.take(i + 1).drop_last() =~= runs.take(i as int));
                assert(runs.take(i + 1).last() == run_view(self.results@[i as int]));
            }
            let here = self.results[i].1.len();
            if here > usize::MAX - count {
                proof {
                    lemma_count_grows(runs, (i + 1) as nat);
                }
                return None;
            }
            count = count + here;
            i = i + 1;
        }
        assert(runs.take(n as int) =~= runs);
        Some(count)
    }

    /// The summary of the backtest, or `None` where one of its figures has
    /// no result or is too long to print.
    fn summary_checked(&self) -> (r: Option<String>)
        ensures
            match r {
                Some(text) => summary_outcome(self@) == Some(text@),
                None => summary_outcome(self@) is None,
            },
    {
        let slippage = match self.average_slippage_checked() {
            Some(slippage) => slippage,
            None => {
                return None;
            },
        };
        let fees = match self.total_fees_checked() {
            Some(fees) => fees,
            None => {
                return None;
            },
        };
        let executions = match self.count_executions() {
            Some(executions) => executions,
            None => {
                return None;
            },
        };
        let slippage = match slippage.try_to_fixed(4) {
            Some(text) => text,
            None => {
                return None;
            },
        };
        let fees = match fees.try_to_fixed(2) {
            Some(text) => text,
            None => {
                return None;
            },
        };
        let mut text = String::from_str("Backtest Summary:\n- Total Orders: ");
        append_usize(&mut text, self.orders.len());
        text.append("\n- Average Slippage: ");
        text.append(slippage.as_str());
        text.append("%\n- Total Fees: ");
        text.append(fees.as_str());
        text.append("\n- Total Executions: ");
        append_usize(&mut text, executions);
        Some(text)
    }

    /// The summary of the backtest: orders, average slippage, fees and
    /// executions.
    ///
    /// Every figure must have a result and be short enough to print;
    /// [`Self::try_summary`] tests both.
    pub fn summary(&self) -> (r: String)
        requires
            summary_outcome(self@) is Some,
        ensures
            summary_outcome(self@) == Some(r@),
    {
        match self.summary_checked() {
            Some(text) => text,
            None => unreached(),
        }
    }

    /// The summary as [`Self::summary`] gives it, or `None` where one of its
    /// figures has no result or is too long to print.
    pub fn try_summary(&self) -> (r: Option<String>)
        ensures
            match r {
                Some(text) => summary_outcome(self@) == Some(text@),
                None => summary_outcome(self@) is None,
            },
    {
        match self.summary_checked() {
            Some(_) => Some(self.summary()),
            None => None,
        }
    }
}

/// Once an addition has had no result, the sum of slippages has none.
proof fn lemma_slippage_undefined(runs: Seq<RunView>, i: nat)
    requires
        i <= runs.len(),
        slippage_sum(runs.take(i as int)) is None,
    ensures
        slippage_sum(runs) is None,
    decreases runs.len(),
{
    if i < runs.len() {
        assert(runs.drop_last().take(i as int) =~= runs.take(i as int));
        lemma_slippage_undefined(runs.drop_last(), i);
    } else {
        assert(runs.take(i as int) =~= runs);
    }
}

/// A sum of fees that has no result has none however it is carried on.
proof fn lemma_fees_added_undefined(
    start: Option<Decimal>,
    executions: Seq<ExecutionResultView>,
    j: nat,
)
    requires
        j <= executions.len(),
        fees_added(start, executions.take(j as int)) is None,
    ensures
        fees_added(start, executions) is None,
    decreases executions.len(),
{
    if j < executions.len() {
        assert(executions.drop_last().take(j as int) =~= executions.take(j as int));
        lemma_fees_added_undefined(start, executions.drop_last(), j);
    } else {
        assert(executions.take(j as int) =~= executions);
    }
}

/// Once the fees of the first runs have no result, the fees of all have
/// none.
proof fn lemma_fees_undefined(runs: Seq<RunView>, i: nat)
    requires
        i <= runs.len(),
        fees_of_runs(runs.take(i as int)) is None,
    ensures
        fees_of_runs(runs) is None,
    decreases runs.len(),
{
    if i < runs.len() {
        assert(runs.drop_last().take(i as int) =~= runs.take(i as int));
        lemma_fees_undefined(runs.drop_last(), i);
        lemma_fees_added_undefined(None, runs.last().executions, 0);
        assert(runs.last().executions.take(0) =~= Seq::<ExecutionResultView>::empty());
    } else {
        assert(runs.take(i as int) =~= runs);
    }
}

/// All runs hold at least as many executions as the first of them.
proof fn lemma_count_grows(runs: Seq<RunView>, i: nat)
    requires
        i <= runs.len(),
    ensures
        execution_count(runs.take(i as int)) <= execution_count(runs),
    decreases runs.len(),
{
    if i < runs.len() {
        assert(runs.drop_last().take(i as int) =~= runs.take(i as int));
        lemma_count_grows(runs.drop_last(), i);
    } else {
        assert(runs.take(i as int) =~= runs);
    }
}

} // verus!
