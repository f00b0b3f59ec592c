//! The greedy allocation: visit the venues from the most favourable price on,
//! take from each as much as it offers and the order still needs, and derive
//! the blended price and the slippage against the best single price.
//!
//! The amounts are computed by `rust_decimal`, so the contracts are written
//! over the named results of its operations (see [`crate::decimal`]): they
//! pin down which operations are done on which operands, and what is returned
//! for each of their results. An outcome of `None` stands for an operation
//! that has no result, an overflow or a division by zero.

use vstd::prelude::*;
use vstd::pervasive::unreached;
use crate::decimal::{Decimal, decimal_difference, decimal_product, decimal_quotient, decimal_sum};
use crate::router::visit::{indices, is_visit_order, ranks, sort_venues, visit_order};
use crate::types::{
    Liquidity,
    LiquidityView,
    Order,
    OrderSide,
    OrderSplit,
    OrderSplitView,
    OrderView,
    RoutingResult,
    RoutingResultView,
    liquidity_views,
    split_views,
};

verus! {

/// Why no routing plan could be made.
#[derive(Debug, Clone, Copy, PartialEq, Eq, Structural)]
pub enum RoutingError {
    /// The snapshot holds no venue, so there is no price to measure against.
    NoLiquidityAvailable,
    /// The venues together offer less than the order asks for.
    InsufficientLiquidity,
}

impl RoutingError {
    /// The error in words.
    pub fn message(&self) -> (r: &'static str)
        ensures
            r@ == match *self {
                RoutingError::NoLiquidityAvailable => "No liquidity available"@,
                RoutingError::InsufficientLiquidity => "Insufficient liquidity to fill order"@,
            },
    {
        match self {
            RoutingError::NoLiquidityAvailable => "No liquidity available",
            RoutingError::InsufficientLiquidity => "Insufficient liquidity to fill order",
        }
    }
}

/// How far an allocation has got: the splits decided so far, what they cost
/// (or earn) in total, and how much of the order is still open.
pub struct Allocation {
    pub splits: Seq<OrderSplitView>,
    pub total: Decimal,
    pub remaining: Decimal,
}

/// The allocation before any venue is visited.
pub open spec fn initial_allocation(quantity: Decimal) -> Allocation {
    Allocation { splits: Seq::empty(), total: Decimal::from_parts(0, 0), remaining: quantity }
}

/// What a venue fills of an order that still needs `remaining`: all that is
/// needed, or all the venue offers where that is less.
pub open spec fn fill_at(remaining: Decimal, venue: LiquidityView, side: OrderSide) -> Decimal {
    remaining.spec_min(venue.size(side))
}

/// The split that a venue gets for the given fill.
pub open spec fn split_at(fill: Decimal, venue: LiquidityView, side: OrderSide) -> OrderSplitView {
    OrderSplitView { exchange: venue.exchange, quantity: fill, expected_price: venue.price(side) }
}

/// One venue visited. Nothing changes once the order is filled, or where the
/// venue offers nothing. Otherwise the venue gets a split at its own price,
/// the total grows by fill times price, and the fill leaves what remains.
pub open spec fn visit(state: Allocation, venue: LiquidityView, side: OrderSide) -> Option<
    Allocation,
> {
    let fill = fill_at(state.remaining, venue, side);
    if state.remaining.units() <= 0 || fill.units() <= 0 {
        Some(state)
    } else {
        match decimal_product(fill, venue.price(side)) {
            None => None,
            Some(cost) => match decimal_sum(state.total, cost) {
                None => None,
                Some(total) => match decimal_difference(state.remaining, fill) {
                    None => None,
                    Some(remaining) => Some(
                        Allocation {
                            splits: state.splits.push(split_at(fill, venue, side)),
                            total,
                            remaining,
                        },
                    ),
                },
            },
        }
    }
}

/// The allocation after the first `n` venues of `order` have been visited.
pub open spec fn allocate(
    snapshot: Seq<LiquidityView>,
    side: OrderSide,
    order: Seq<int>,
    quantity: Decimal,
    n: nat,
) -> Option<Allocation>
    decreases n,
{
    if n == 0 {
        Some(initial_allocation(quantity))
    } else {
        match allocate(snapshot, side, order, quantity, (n - 1) as nat) {
            None => None,
            Some(state) => visit(state, snapshot[order[n - 1]], side),
        }
    }
}

/// The best price among the first `n` venues, for `n` of at least 1: the
/// lowest ask for a buy, and of equal asks the first; the highest bid for a
/// sell, and of equal bids the last.
pub open spec fn best_price_of(snapshot: Seq<LiquidityView>, side: OrderSide, n: nat) -> Decimal
    decreases n,
{
    if n <= 1 {
        snapshot[0].price(side)
    } else {
        let before = best_price_of(snapshot, side, (n - 1) as nat);
        let here = snapshot[n - 1].price(side);
        match side {
            OrderSide::Buy => if here.units() < before.units() {
                here
            } else {
                before
            },
            OrderSide::Sell => if here.units() >= before.units() {
                here
            } else {
                before
            },
        }
    }
}

/// The best single price that a snapshot holds for an order of the given
/// side.
pub open spec fn best_price(snapshot: Seq<LiquidityView>, side: OrderSide) -> Decimal {
    best_price_of(snapshot, side, snapshot.len())
}

/// The slippage in percent of a blended price against the best price: how far
/// a buy paid above it, or a sell earned below it.
pub open spec fn slippage(average: Decimal, best: Decimal, side: OrderSide) -> Option<Decimal> {
    let gap = match side {
        OrderSide::Buy => decimal_difference(average, best),
        OrderSide::Sell => decimal_difference(best, average),
    };
    match gap {
        None => None,
        Some(gap) => match decimal_quotient(gap, best) {
            None => None,
            Some(ratio) => decimal_product(ratio, Decimal::from_parts(100, 0)),
        },
    }
}

/// What becomes of a finished walk. Where part of the order is still open the
/// venues did not suffice and nothing of the allocation is returned.
/// Otherwise the plan holds the splits, the total over the ordered quantity
/// as blended price, and the slippage.
pub open spec fn settle(order: OrderView, side: OrderSide, state: Allocation, best: Decimal) -> Option<
    Result<RoutingResultView, RoutingError>,
> {
    if state.remaining.units() > 0 {
        Some(Err(RoutingError::InsufficientLiquidity))
    } else {
        match decimal_quotient(state.total, order.quantity) {
            None => None,
            Some(average) => match slippage(average, best, side) {
                None => None,
                Some(estimated) => Some(
                    Ok(
                        RoutingResultView {
                            original_order: order,
                            splits: state.splits,
                            total_quantity: order.quantity,
                            average_price: average,
                            estimated_slippage: estimated,
                        },
                    ),
                ),
            },
        }
    }
}

/// What routing an order against a snapshot gives, on the given side of the
/// book. An empty snapshot is refused before anything is computed.
pub open spec fn plan_outcome(order: OrderView, snapshot: Seq<LiquidityView>, side: OrderSide) -> Option<
    Result<RoutingResultView, RoutingError>,
> {
    if snapshot.len() == 0 {
        Some(Err(RoutingError::NoLiquidityAvailable))
    } else {
        match allocate(
            snapshot,
            side,
            visit_order(snapshot, side),
            order.quantity,
            snapshot.len(),
        ) {
            None => None,
            Some(state) => settle(order, side, state, best_price(snapshot, side)),
        }
    }
}

/// The view of a routing outcome.
pub open spec fn outcome_view(r: Result<RoutingResult, RoutingError>) -> Result<
    RoutingResultView,
    RoutingError,
> {
    match r {
        Ok(plan) => Ok(plan@),
        Err(e) => Err(e),
    }
}

/// The view of a routing outcome that may be undefined.
pub open spec fn checked_outcome_view(r: Option<Result<RoutingResult, RoutingError>>) -> Option<
    Result<RoutingResultView, RoutingError>,
> {
    match r {
        Some(outcome) => Some(outcome_view(outcome)),
        None => None,
    }
}

/// Once an operation has had no result, the walk has none.
pub proof fn lemma_allocate_undefined(
    snapshot: Seq<LiquidityView>,
    side: OrderSide,
    order: Seq<int>,
    quantity: Decimal,
    i: nat,
    n: nat,
)
    requires
        i <= n,
        allocate(snapshot, side, order, quantity, i) is None,
    ensures
        allocate(snapshot, side, order, quantity, n) is None,
    decreases n,
{
    if i < n {
        lemma_allocate_undefined(snapshot, side, order, quantity, i, (n - 1) as nat);
    }
}

/// Once the order is filled, further venues change nothing.
pub proof fn lemma_allocate_filled(
    snapshot: Seq<LiquidityView>,
    side: OrderSide,
    order: Seq<int>,
    quantity: Decimal,
    i: nat,
    n: nat,
)
    requires
        i <= n,
        allocate(snapshot, side, order, quantity, i) matches Some(state) && state.remaining.units()
            <= 0,
    ensures
        allocate(snapshot, side, order, quantity, n) == allocate(snapshot, side, order, quantity, i),
    decreases n,
{
    if i < n {
        lemma_allocate_filled(snapshot, side, order, quantity, i, (n - 1) as nat);
    }
}

/// The best single price in a snapshot that holds at least one venue.
pub fn find_best_price(snapshot: &[Liquidity], side: OrderSide) -> (best: Decimal)
    requires
        snapshot@.len() > 0,
    ensures
        best == best_price(liquidity_views(snapshot@), side),
{
    let ghost views = liquidity_views(snapshot@);
    let n = snapshot.len();
    let mut best = snapshot[0].price(side);
    let mut i: usize = 1;
    while i < n
        invariant
            1 <= i <= n,
            n == snapshot@.len(),
            views == liquidity_views(snapshot@),
            best == best_price_of(views, side, i as nat),
        decreases n - i,
    {
        let here = snapshot[i].price(side);
        match side {
            OrderSide::Buy => {
                if here < best {
                    best = here;
                }
            },
            OrderSide::Sell => {
                if here >= best {
                    best = here;
                }
            },
        }
        i = i + 1;
    }
    best
}

/// The slippage in percent, or `None` where one of its operations has no
/// result.
pub fn estimate_slippage(average: Decimal, best: Decimal, side: OrderSide) -> (r: Option<Decimal>)
    ensures
        r == slippage(average, best, side),
{
    let gap = match side {
        OrderSide::Buy => average.checked_sub(best),
        OrderSide::Sell => best.checked_sub(average),
    };
    match gap {
        None => None,
        Some(gap) => match gap.checked_div(best) {
            None => None,
            Some(ratio) => ratio.checked_mul(Decimal::new(100, 0)),
        },
    }
}

/// An allocation under way: the splits decided so far, what they cost (or
/// earn) in total, and how much of the order is still open.
pub struct Walk {
    pub splits: Vec<OrderSplit>,
    pub total: Decimal,
    pub remaining: Decimal,
}

impl View for Walk {
    type V = Allocation;

    open spec fn view(&self) -> Allocation {
        Allocation {
            splits: split_views(self.splits@),
            total: self.total,
            remaining: self.remaining,
        }
    }
}

/// The view of a walk that may have no result.
pub open spec fn walk_view(r: Option<Walk>) -> Option<Allocation> {
    match r {
        Some(walk) => Some(walk@),
        None => None,
    }
}

impl Walk {
    /// The walk before any venue is visited: no split, a total of zero, and
    /// the whole quantity open.
    pub fn begin(quantity: Decimal) -> (walk: Walk)
        ensures
            walk@ == initial_allocation(quantity),
    {
        let walk = Walk { splits: Vec::new(), total: Decimal::zero(), remaining: quantity };
        assert(split_views(walk.splits@) =~= Seq::empty());
        walk
    }

    /// Visits one venue: takes from it what it offers and the order still
    /// needs, at the venue's own price. Returns `None` where an operation on
    /// the amounts has no result.
    pub fn visit(self, venue: &Liquidity, side: OrderSide) -> (r: Option<Walk>)
        ensures
            walk_view(r) == visit(self@, venue@, side),
    {
        let zero = Decimal::zero();
        let fill = self.remaining.min(venue.size(side));
        if !(self.remaining > zero) || !(fill > zero) {
            return Some(self);
        }
        let price = venue.price(side);
        let cost = match fill.checked_mul(price) {
            Some(cost) => cost,
            None => {
                return None;
            },
        };
        let total = match self.total.checked_add(cost) {
            Some(total) => total,
            None => {
                return None;
            },
        };
        let remaining = match self.remaining.checked_sub(fill) {
            Some(remaining) => remaining,
            None => {
                return None;
            },
        };
        let split = OrderSplit { exchange: venue.exchange.clone(), quantity: fill, expected_price: price };
        let mut splits = self.splits;
        assert(split_views(splits@.push(split)) =~= split_views(splits@).push(split@));
        splits.push(split);
        Some(Walk { splits, total, remaining })
    }

    /// Ends the walk: an order that is still open in part is refused for
    /// insufficient liquidity, a filled one gets its plan, with the blended
    /// price and the slippage against the best price. Returns `None` where
    /// an operation on the amounts has no result.
    pub fn settle(self, order: &Order, side: OrderSide, best: Decimal) -> (r: Option<
        Result<RoutingResult, RoutingError>,
    >)
        ensures
            checked_outcome_view(r) == settle(order@, side, self@, best),
    {
        if self.remaining > Decimal::zero() {
            return Some(Err(RoutingError::InsufficientLiquidity));
        }
        let average = match self.total.checked_div(order.quantity) {
            Some(average) => average,
            None => {
                return None;
            },
        };
        match estimate_slippage(average, best, side) {
            None => None,
            Some(estimated) => Some(
                Ok(
                    RoutingResult {
                        original_order: order.clone(),
                        splits: self.splits,
                        total_quantity: order.quantity,
                        average_price: average,
                        estimated_slippage: estimated,
                    },
                ),
            ),
        }
    }
}

/// Routes an order on the given side of the book, or returns `None` where an
/// operation on the amounts has no result.
fn plan(order: &Order, snapshot: &[Liquidity], side: OrderSide) -> (r: Option<
    Result<RoutingResult, RoutingError>,
>)
    ensures
        checked_outcome_view(r) == plan_outcome(order@, liquidity_views(snapshot@), side),
{
    let n = snapshot.len();
    if n == 0 {
        return Some(Err(RoutingError::NoLiquidityAvailable));
    }
    let ghost views = liquidity_views(snapshot@);
    let visiting = sort_venues(snapshot, side);
    let ghost visits = indices(visiting@);
    let zero = Decimal::zero();
    let mut walk = Walk::begin(order.quantity);
    let mut i: usize = 0;
    while i < n && walk.remaining > zero
        invariant
            i <= n,
            n == snapshot@.len(),
            n == visiting@.len(),
            zero.units() == 0,
            views == liquidity_views(snapshot@),
            visits == indices(visiting@),
            visits == visit_order(views, side),
            is_visit_order(visits, ranks(views, side), n as nat),
            allocate(views, side, visits, order.quantity, i as nat) == Some(walk@),
        decreases n - i,
    {
        assert(visits[i as int] == visiting@[i as int]);
        let venue = &snapshot[visiting[i]];
        assert(views[visits[i as int]] == venue@);
        walk = match walk.visit(venue, side) {
            Some(next) => next,
            None => {
                proof {
                    lemma_allocate_undefined(
                        views,
                        side,
                        visits,
                        order.quantity,
                        (i + 1) as nat,
                        n as nat,
                    );
                }
                return None;
            },
        };
        i = i + 1;
    }
    proof {
        if i < n {
            lemma_allocate_filled(views, side, visits, order.quantity, i as nat, n as nat);
        }
    }
    let best = find_best_price(snapshot, side);
    walk.settle(order, side, best)
}

/// Whether an order can be routed on the given side of the book: its
/// quantity is positive, and every operation on the amounts has a result.
pub fn can_optimize(order: &Order, liquidities: &[Liquidity], side: OrderSide) -> (r: bool)
    ensures
        r == (order@.quantity.is_positive() && plan_outcome(
            order@,
            liquidity_views(liquidities@),
            side,
        ) is Some),
{
    order.quantity.is_positive() && plan(order, liquidities, side).is_some()
}

/// Routes a buy: fills from the lowest ask upwards.
///
/// The order's quantity must be positive, and every operation on the amounts
/// must have a result; [`can_optimize`] tests both.
pub fn optimize_buy_order(order: &Order, liquidities: &[Liquidity]) -> (r: Result<
    RoutingResult,
    RoutingError,
>)
    requires
        order@.quantity.is_positive(),
        plan_outcome(order@, liquidity_views(liquidities@), OrderSide::Buy) is Some,
    ensures
        Some(outcome_view(r)) == plan_outcome(order@, liquidity_views(liquidities@), OrderSide::Buy),
{
    match plan(order, liquidities, OrderSide::Buy) {
        Some(outcome) => outcome,
        None => unreached(),
    }
}

/// Routes a sell: fills from the highest bid downwards.
///
/// The order's quantity must be positive, and every operation on the amounts
/// must have a result; [`can_optimize`] tests both.
pub fn optimize_sell_order(order: &Order, liquidities: &[Liquidity]) -> (r: Result<
    RoutingResult,
    RoutingError,
>)
    requires
        order@.quantity.is_positive(),
        plan_outcome(order@, liquidity_views(liquidities@), OrderSide::Sell) is Some,
    ensures
        Some(outcome_view(r)) == plan_outcome(
            order@,
            liquidity_views(liquidities@),
            OrderSide::Sell,
        ),
{
    match plan(order, liquidities, OrderSide::Sell) {
        Some(outcome) => outcome,
        None => unreached(),
    }
}

/// Routes an order on the given side of the book as [`optimize_buy_order`]
/// and [`optimize_sell_order`] do, where the order's quantity is positive and
/// every operation on the amounts has a result, and returns `None` where not.
pub fn try_optimize_order(order: &Order, liquidities: &[Liquidity], side: OrderSide) -> (r: Option<
    Result<RoutingResult, RoutingError>,
>)
    ensures
        checked_outcome_view(r) == if order@.quantity.is_positive() {
            plan_outcome(order@, liquidity_views(liquidities@), side)
        } else {
            None
        },
{
    if can_optimize(order, liquidities, side) {
        Some(
            match side {
                OrderSide::Buy => optimize_buy_order(order, liquidities),
                OrderSide::Sell => optimize_sell_order(order, liquidities),
            },
        )
    } else {
        None
    }
}

} // verus!
