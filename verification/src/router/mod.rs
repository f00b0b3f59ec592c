//! The allocation engine: from an order and a snapshot of venue quotes to a
//! routing plan.

pub mod guarantees;
pub mod optimizer;
pub mod splitter;
pub mod visit;

use vstd::prelude::*;
use crate::router::guarantees::{
    costs_exact,
    filled,
    lemma_conservation,
    lemma_insufficiency,
    lemma_splits_follow_visit_order,
    lemma_plan_against_best_price,
    offered,
    quantities_exact,
    settlement_is_nearest,
    snapshot_valid,
    split_venues,
    splits_follow_visit_order,
};
use crate::router::optimizer::{
    RoutingError,
    best_price,
    can_optimize,
    checked_outcome_view,
    optimize_buy_order,
    optimize_sell_order,
    outcome_view,
    plan_outcome,
};
use crate::types::{
    Liquidity,
    LiquidityView,
    Order,
    OrderSide,
    OrderView,
    RoutingResult,
    RoutingResultView,
    liquidity_views,
};

verus! {

/// What the venues answered, as views: `None` stands for a venue that does
/// not list the pair or failed to answer.
pub open spec fn answer_views(answers: Seq<Option<Liquidity>>) -> Seq<Option<LiquidityView>> {
    answers.map_values(
        |answer: Option<Liquidity>|
            match answer {
                Some(quote) => Some(quote@),
                None => None,
            },
    )
}

/// The quotes among the answers, in the order of the answers.
pub open spec fn quotes_among(answers: Seq<Option<LiquidityView>>) -> Seq<LiquidityView>
    decreases answers.len(),
{
    if answers.len() == 0 {
        Seq::empty()
    } else {
        match answers.last() {
            Some(quote) => quotes_among(answers.drop_last()).push(quote),
            None => quotes_among(answers.drop_last()),
        }
    }
}

/// Makes the snapshot for one routing call from what the venues answered:
/// the venues that gave no quote are left out, the others keep their order.
pub fn collect_snapshot(answers: Vec<Option<Liquidity>>) -> (snapshot: Vec<Liquidity>)
    ensures
        liquidity_views(snapshot@) == quotes_among(answer_views(answers@)),
{
    let ghost views = answer_views(answers@);
    let mut snapshot: Vec<Liquidity> = Vec::new();
    let mut answers = answers;
    let n = answers.len();
    let mut i: usize = 0;
    assert(views.take(0) =~= Seq::<Option<LiquidityView>>::empty());
    assert(liquidity_views(snapshot@) =~= Seq::<LiquidityView>::empty());
    while i < n
        invariant
            i <= n,
            n == answers@.len(),
            n == views.len(),
            forall|j: int| i <= j < n ==> #[trigger] views[j] == answer_views(answers@)[j],
            liquidity_views(snapshot@) == quotes_among(views.take(i as int)),
        decreases n - i,
    {
        proof {
            assert(views.take(i + 1).drop_last() =~= views.take(i as int));
            assert(views.take(i + 1).last() == views[i as int]);
            assert(views[i as int] == answer_views(answers@)[i as int]);
        }
        let mut taken: Option<Liquidity> = None;
        std::mem::swap(&mut answers[i], &mut taken);
        match taken {
            Some(quote) => {
                assert(liquidity_views(snapshot@.push(quote)) =~= liquidity_views(snapshot@).push(
                    quote@,
                ));
                snapshot.push(quote);
            },
            None => {},
        }
        i = i + 1;
    }
    assert(views.take(n as int) =~= views);
    snapshot
}

/// What routing an order against a snapshot gives: the plan on the order's
/// own side of the book.
pub open spec fn route_outcome(order: OrderView, snapshot: Seq<LiquidityView>) -> Option<
    Result<RoutingResultView, RoutingError>,
> {
    plan_outcome(order, snapshot, order.side)
}

/// The plan is never better than the best price of the snapshot allows: a
/// buy's blended price is at least the best ask, a sell's at most the best
/// bid, and the slippage is not negative.
pub open spec fn within_best_price(plan: RoutingResultView, snapshot: Seq<LiquidityView>) -> bool {
    let best = best_price(snapshot, plan.original_order.side);
    &&& match plan.original_order.side {
        OrderSide::Buy => plan.average_price.units() >= best.units(),
        OrderSide::Sell => plan.average_price.units() <= best.units(),
    }
    &&& plan.estimated_slippage.units() >= 0
}

/// Routes an order against a snapshot of venue quotes.
///
/// Returns the plan, [`RoutingError::NoLiquidityAvailable`] for an empty
/// snapshot, or [`RoutingError::InsufficientLiquidity`] where the walk over
/// all venues leaves part of the order open. The outcome is a function of
/// the order and the snapshot, venues in their order.
///
/// The splits of a plan follow the visit order: best price first, equal
/// prices in the order of the snapshot, each split at its venue's price and
/// within its venue's size. Venues are told apart by their place in the
/// snapshot; two quotes under one name are two venues.
///
/// Where no remaining quantity is rounded, the splits add up to the ordered
/// quantity, and a snapshot of valid quotes is insufficient exactly when its
/// venues offer less in total than the order asks for. Where, moreover, no
/// cost is rounded and the quotients are rounded to the nearest, the plan is
/// within the best price.
///
/// The order's quantity must be positive, and every operation on the amounts
/// must have a result; [`try_route`] tests both.
pub fn route(order: &Order, snapshot: &[Liquidity]) -> (r: Result<RoutingResult, RoutingError>)
    requires
        order@.quantity.is_positive(),
        route_outcome(order@, liquidity_views(snapshot@)) is Some,
    ensures
        Some(outcome_view(r)) == route_outcome(order@, liquidity_views(snapshot@)),
        snapshot@.len() == 0 ==> r == Err::<RoutingResult, _>(RoutingError::NoLiquidityAvailable),
        r is Ok ==> r.unwrap()@.original_order == order@ && r.unwrap()@.total_quantity
            == order@.quantity && splits_follow_visit_order(
            r.unwrap()@.splits,
            liquidity_views(snapshot@),
            order@.side,
            split_venues(order@, liquidity_views(snapshot@), order@.side),
        ),
        r is Ok && quantities_exact(order@, liquidity_views(snapshot@), order@.side) ==> filled(
            r.unwrap()@.splits,
        ) == order@.quantity.units(),
        snapshot@.len() > 0 && snapshot_valid(liquidity_views(snapshot@)) && quantities_exact(
            order@,
            liquidity_views(snapshot@),
            order@.side,
        ) ==> (offered(liquidity_views(snapshot@), order@.side, snapshot@.len())
            < order@.quantity.units() <==> r == Err::<RoutingResult, _>(
            RoutingError::InsufficientLiquidity,
        )),
        r is Ok && snapshot_valid(liquidity_views(snapshot@)) && quantities_exact(
            order@,
            liquidity_views(snapshot@),
            order@.side,
        ) && costs_exact(order@, liquidity_views(snapshot@), order@.side) && settlement_is_nearest(
            order@,
            liquidity_views(snapshot@),
            order@.side,
        ) ==> within_best_price(r.unwrap()@, liquidity_views(snapshot@)),
{
    let r = match order.side {
        OrderSide::Buy => optimize_buy_order(order, snapshot),
        OrderSide::Sell => optimize_sell_order(order, snapshot),
    };
    proof {
        let views = liquidity_views(snapshot@);
        let side = order@.side;
        if r is Ok {
            lemma_splits_follow_visit_order(order@, views, side);
            if quantities_exact(order@, views, side) {
                lemma_conservation(order@, views, side);
                if snapshot_valid(views) && costs_exact(order@, views, side) && settlement_is_nearest(
                    order@,
                    views,
                    side,
                ) {
                    lemma_plan_against_best_price(order@, views, side);
                }
            }
        }
        if views.len() > 0 && snapshot_valid(views) && quantities_exact(order@, views, side) {
            lemma_insufficiency(order@, views, side);
        }
    }
    r
}

/// Routes an order as [`route`] does where the order's quantity is positive
/// and every operation on the amounts has a result, and returns `None` where
/// not.
pub fn try_route(order: &Order, snapshot: &[Liquidity]) -> (r: Option<
    Result<RoutingResult, RoutingError>,
>)
    ensures
        checked_outcome_view(r) == if order@.quantity.is_positive() {
            route_outcome(order@, liquidity_views(snapshot@))
        } else {
            None
        },
{
    if can_optimize(order, snapshot, order.side) {
        Some(route(order, snapshot))
    } else {
        None
    }
}

} // verus!
