//! What holds of every routing plan, proved from the definition of the
//! allocation.
//!
//! Some of these statements speak of amounts as numbers, and `rust_decimal`
//! rounds a result whose digits do not fit a decimal. They are therefore
//! stated for walks whose operations are exact, which [`quantities_exact`]
//! and [`costs_exact`] say, and for quotients that are rounded to the
//! nearest, which [`settlement_is_nearest`] says.

use vstd::prelude::*;
use vstd::arithmetic::div_mod::lemma_fundamental_div_mod;
use vstd::arithmetic::power::lemma_pow_positive;
use crate::decimal::{
    Decimal,
    decimal_difference,
    decimal_product,
    decimal_quotient,
    difference_is_exact,
    product_is_exact,
    quotient_is_nearest,
    step,
    sum_is_exact,
    unit,
};
use crate::router::optimizer::{
    Allocation,
    RoutingError,
    allocate,
    best_price,
    best_price_of,
    fill_at,
    plan_outcome,
    split_at,
};
use crate::router::visit::{
    lemma_visit_order,
    place,
    precedes,
    rank,
    ranks,
    visit_order,
    visit_order_of,
};
use crate::types::{LiquidityView, OrderSide, OrderSplitView, OrderView, RoutingResultView};

verus! {

/// The quantity that a list of splits fills in total, in units.
pub open spec fn filled(splits: Seq<OrderSplitView>) -> int
    decreases splits.len(),
{
    if splits.len() == 0 {
        0
    } else {
        filled(splits.drop_last()) + splits.last().quantity.units()
    }
}

/// What a list of splits costs (or earns) in total: the sum of quantity times
/// price, each in units.
pub open spec fn notional(splits: Seq<OrderSplitView>) -> int
    decreases splits.len(),
{
    if splits.len() == 0 {
        0
    } else {
        notional(splits.drop_last()) + splits.last().quantity.units()
            * splits.last().expected_price.units()
    }
}

/// The size that the first `n` venues of a snapshot offer together to an
/// order of the given side, in units.
pub open spec fn offered(snapshot: Seq<LiquidityView>, side: OrderSide, n: nat) -> int
    decreases n,
{
    if n == 0 {
        0
    } else {
        offered(snapshot, side, (n - 1) as nat) + snapshot[n - 1].size(side).units()
    }
}

/// The size that the listed venues offer together, in units.
pub open spec fn offered_by(snapshot: Seq<LiquidityView>, side: OrderSide, venues: Seq<int>) -> int
    decreases venues.len(),
{
    if venues.len() == 0 {
        0
    } else {
        offered_by(snapshot, side, venues.drop_last()) + snapshot[venues.last()].size(side).units()
    }
}

/// No venue of the snapshot quotes a negative price or size.
pub open spec fn snapshot_valid(snapshot: Seq<LiquidityView>) -> bool {
    forall|k: int| 0 <= k < snapshot.len() ==> (#[trigger] snapshot[k]).valid()
}

/// In each of the first `n` visits that made a split, taking the fill from
/// what remained was exact.
pub open spec fn walk_is_exact(
    snapshot: Seq<LiquidityView>,
    side: OrderSide,
    order: Seq<int>,
    quantity: Decimal,
    n: nat,
) -> bool
    decreases n,
{
    n == 0 || {
        &&& walk_is_exact(snapshot, side, order, quantity, (n - 1) as nat)
        &&& allocate(snapshot, side, order, quantity, (n - 1) as nat) matches Some(state) ==> {
            let fill = fill_at(state.remaining, snapshot[order[n - 1]], side);
            state.remaining.units() > 0 && fill.units() > 0 ==> difference_is_exact(
                state.remaining,
                fill,
            )
        }
    }
}

/// In each of the first `n` visits that made a split, fill times price was
/// exact, and so was adding it to the total.
pub open spec fn walk_cost_is_exact(
    snapshot: Seq<LiquidityView>,
    side: OrderSide,
    order: Seq<int>,
    quantity: Decimal,
    n: nat,
) -> bool
    decreases n,
{
    n == 0 || {
        &&& walk_cost_is_exact(snapshot, side, order, quantity, (n - 1) as nat)
        &&& allocate(snapshot, side, order, quantity, (n - 1) as nat) matches Some(state) ==> {
            let venue = snapshot[order[n - 1]];
            let fill = fill_at(state.remaining, venue, side);
            state.remaining.units() > 0 && fill.units() > 0 ==> {
                &&& product_is_exact(fill, venue.price(side))
                &&& decimal_product(fill, venue.price(side)) matches Some(cost) ==> sum_is_exact(
                    state.total,
                    cost,
                )
            }
        }
    }
}

/// Routing the order never rounds a remaining quantity.
pub open spec fn quantities_exact(order: OrderView, snapshot: Seq<LiquidityView>, side: OrderSide) -> bool {
    walk_is_exact(snapshot, side, visit_order(snapshot, side), order.quantity, snapshot.len())
}

/// Routing the order never rounds a cost.
pub open spec fn costs_exact(order: OrderView, snapshot: Seq<LiquidityView>, side: OrderSide) -> bool {
    walk_cost_is_exact(snapshot, side, visit_order(snapshot, side), order.quantity, snapshot.len())
}

/// The allocation at the end of the walk over the whole snapshot.
pub open spec fn final_allocation(order: OrderView, snapshot: Seq<LiquidityView>, side: OrderSide) -> Option<
    Allocation,
> {
    allocate(snapshot, side, visit_order(snapshot, side), order.quantity, snapshot.len())
}

proof fn lemma_filled_push(splits: Seq<OrderSplitView>, split: OrderSplitView)
    ensures
        filled(splits.push(split)) == filled(splits) + split.quantity.units(),
        notional(splits.push(split)) == notional(splits) + split.quantity.units()
            * split.expected_price.units(),
{
    assert(splits.push(split).drop_last() =~= splits);
}

/// What is filled and what remains add up to the ordered quantity, and
/// nothing is ever overfilled.
proof fn lemma_walk_balance(
    snapshot: Seq<LiquidityView>,
    side: OrderSide,
    order: Seq<int>,
    quantity: Decimal,
    n: nat,
)
    requires
        quantity.units() >= 0,
        walk_is_exact(snapshot, side, order, quantity, n),
        allocate(snapshot, side, order, quantity, n) is Some,
    ensures
        filled(allocate(snapshot, side, order, quantity, n).unwrap().splits) + allocate(
            snapshot,
            side,
            order,
            quantity,
            n,
        ).unwrap().remaining.units() == quantity.units(),
        allocate(snapshot, side, order, quantity, n).unwrap().remaining.units() >= 0,
    decreases n,
{
    if n > 0 {
        lemma_walk_balance(snapshot, side, order, quantity, (n - 1) as nat);
        let before = allocate(snapshot, side, order, quantity, (n - 1) as nat).unwrap();
        let venue = snapshot[order[n - 1]];
        let fill = fill_at(before.remaining, venue, side);
        if before.remaining.units() > 0 && fill.units() > 0 {
            lemma_filled_push(before.splits, split_at(fill, venue, side));
        }
    }
}

/// Where routing succeeds and no remaining quantity was
/// rounded, the splits of the plan add up to the ordered quantity exactly.
pub proof fn lemma_conservation(order: OrderView, snapshot: Seq<LiquidityView>, side: OrderSide)
    requires
        order.quantity.is_positive(),
        plan_outcome(order, snapshot, side) matches Some(Ok(_)),
        quantities_exact(order, snapshot, side),
    ensures
        plan_outcome(order, snapshot, side) matches Some(Ok(plan)) && filled(plan.splits)
            == order.quantity.units() && plan.total_quantity == order.quantity,
{
    lemma_walk_balance(
        snapshot,
        side,
        visit_order(snapshot, side),
        order.quantity,
        snapshot.len(),
    );
}

/// Routing is a function of the order and the snapshot: two
/// outcomes for the same order and the same snapshot, venues in the same
/// order, are the same in every field.
pub proof fn lemma_deterministic(
    order: OrderView,
    snapshot: Seq<LiquidityView>,
    side: OrderSide,
    first: Result<RoutingResultView, RoutingError>,
    second: Result<RoutingResultView, RoutingError>,
)
    ensures
        plan_outcome(order, snapshot, side) == Some(first) && plan_outcome(order, snapshot, side)
            == Some(second) ==> first == second,
{
}

/// Without a venue there is no liquidity, whatever the
/// order.
pub proof fn lemma_empty_snapshot(order: OrderView, snapshot: Seq<LiquidityView>, side: OrderSide)
    requires
        snapshot.len() == 0,
    ensures
        plan_outcome(order, snapshot, side) == Some(
            Err::<RoutingResultView, _>(RoutingError::NoLiquidityAvailable),
        ),
{
}

proof fn lemma_offered_by_push(
    snapshot: Seq<LiquidityView>,
    side: OrderSide,
    venues: Seq<int>,
    k: int,
)
    ensures
        offered_by(snapshot, side, venues.push(k)) == offered_by(snapshot, side, venues)
            + snapshot[k].size(side).units(),
{
    assert(venues.push(k).drop_last() =~= venues);
}

/// Placing a venue into an order adds what it offers, wherever it lands.
proof fn lemma_offered_by_place(
    snapshot: Seq<LiquidityView>,
    side: OrderSide,
    order: Seq<int>,
    ranks: Seq<int>,
    k: int,
)
    ensures
        offered_by(snapshot, side, place(order, ranks, k)) == offered_by(snapshot, side, order)
            + snapshot[k].size(side).units(),
    decreases order.len(),
{
    if order.len() == 0 {
        lemma_offered_by_push(snapshot, side, order, k);
        assert(place(order, ranks, k) =~= order.push(k));
    } else if ranks[order.last()] <= ranks[k] {
        lemma_offered_by_push(snapshot, side, order, k);
    } else {
        lemma_offered_by_place(snapshot, side, order.drop_last(), ranks, k);
        lemma_offered_by_push(
            snapshot,
            side,
            place(order.drop_last(), ranks, k),
            order.last(),
        );
    }
}

/// The venues offer the same in visit order as in the order of the snapshot.
proof fn lemma_offered_in_visit_order(
    snapshot: Seq<LiquidityView>,
    side: OrderSide,
    ranks: Seq<int>,
    n: nat,
)
    ensures
        offered_by(snapshot, side, visit_order_of(ranks, n)) == offered(snapshot, side, n),
    decreases n,
{
    if n > 0 {
        lemma_offered_in_visit_order(snapshot, side, ranks, (n - 1) as nat);
        lemma_offered_by_place(
            snapshot,
            side,
            visit_order_of(ranks, (n - 1) as nat),
            ranks,
            n - 1,
        );
    }
}

/// While part of the order is open, every venue visited so far gave all it
/// offers; once the order is filled, the venues visited offered enough.
proof fn lemma_walk_shortfall(
    snapshot: Seq<LiquidityView>,
    side: OrderSide,
    order: Seq<int>,
    quantity: Decimal,
    n: nat,
)
    requires
        quantity.units() > 0,
        n <= order.len(),
        forall|i: int| 0 <= i < n ==> 0 <= #[trigger] order[i] < snapshot.len(),
        snapshot_valid(snapshot),
        walk_is_exact(snapshot, side, order, quantity, n),
        allocate(snapshot, side, order, quantity, n) is Some,
    ensures
        ({
            let state = allocate(snapshot, side, order, quantity, n).unwrap();
            let offer = offered_by(snapshot, side, order.take(n as int));
            &&& state.remaining.units() >= 0
            &&& state.remaining.units() > 0 ==> state.remaining.units() == quantity.units() - offer
            &&& state.remaining.units() == 0 ==> offer >= quantity.units()
        }),
    decreases n,
{
    lemma_walk_balance(snapshot, side, order, quantity, n);
    if n == 0 {
        assert(order.take(0) =~= Seq::<int>::empty());
    } else {
        lemma_walk_shortfall(snapshot, side, order, quantity, (n - 1) as nat);
        assert(order.take(n as int).drop_last() =~= order.take(n - 1));
        assert(order.take(n as int).last() == order[n - 1]);
        assert(snapshot[order[n - 1]].valid());
    }
}

/// A snapshot whose venues offer less in total than the order asks for is
/// refused for insufficient liquidity, and no other snapshot with a venue in
/// it is: as long as the amounts are valid and no remaining quantity was
/// rounded.
pub proof fn lemma_insufficiency(order: OrderView, snapshot: Seq<LiquidityView>, side: OrderSide)
    requires
        order.quantity.is_positive(),
        snapshot.len() > 0,
        snapshot_valid(snapshot),
        plan_outcome(order, snapshot, side) is Some,
        quantities_exact(order, snapshot, side),
    ensures
        offered(snapshot, side, snapshot.len()) < order.quantity.units() <==> plan_outcome(
            order,
            snapshot,
            side,
        ) == Some(Err::<RoutingResultView, _>(RoutingError::InsufficientLiquidity)),
{
    let order_of_visits = visit_order(snapshot, side);
    let n = snapshot.len();
    lemma_visit_order(ranks(snapshot, side), n);
    lemma_offered_in_visit_order(snapshot, side, ranks(snapshot, side), n);
    lemma_walk_shortfall(snapshot, side, order_of_visits, order.quantity, n);
    assert(order_of_visits.take(n as int) =~= order_of_visits);
}

/// The best price is the price of one of the venues, and no venue has a more
/// favourable one.
pub proof fn lemma_best_price(snapshot: Seq<LiquidityView>, side: OrderSide, n: nat)
    requires
        1 <= n <= snapshot.len(),
    ensures
        exists|k: int| 0 <= k < n && best_price_of(snapshot, side, n) == (#[trigger] snapshot[k]).price(side),
        forall|k: int|
            0 <= k < n ==> match side {
                OrderSide::Buy => best_price_of(snapshot, side, n).units() <= (#[trigger] snapshot[k]).ask_price.units(),
                OrderSide::Sell => best_price_of(snapshot, side, n).units() >= snapshot[k].bid_price.units(),
            },
    decreases n,
{
    if n > 1 {
        lemma_best_price(snapshot, side, (n - 1) as nat);
        let before = best_price_of(snapshot, side, (n - 1) as nat);
        let k = choose|k: int| 0 <= k < n - 1 && before == (#[trigger] snapshot[k]).price(side);
        if best_price_of(snapshot, side, n) == before {
            assert(0 <= k < n && best_price_of(snapshot, side, n) == snapshot[k].price(side));
        } else {
            assert(best_price_of(snapshot, side, n) == snapshot[n - 1].price(side));
        }
    } else {
        assert(best_price_of(snapshot, side, n) == snapshot[0].price(side));
    }
}

/// The venue visited first quotes the best price: the slippage of a plan is
/// measured against the price at which its first split could be had.
pub proof fn lemma_first_visit_has_best_price(snapshot: Seq<LiquidityView>, side: OrderSide)
    requires
        snapshot.len() > 0,
    ensures
        0 <= visit_order(snapshot, side)[0] < snapshot.len(),
        snapshot[visit_order(snapshot, side)[0]].price(side).units() == best_price(
            snapshot,
            side,
        ).units(),
{
    let n = snapshot.len();
    let visits = visit_order(snapshot, side);
    let venue_ranks = ranks(snapshot, side);
    lemma_visit_order(venue_ranks, n);
    lemma_best_price(snapshot, side, n);
    let first = visits[0];
    let k = choose|k: int| 0 <= k < n && best_price(snapshot, side) == (#[trigger] snapshot[k]).price(side);
    assert(visits.contains(k));
    let at = choose|at: int| 0 <= at < visits.len() && visits[at] == k;
    if at > 0 {
        assert(precedes(venue_ranks, visits[0], visits[at]));
    }
    assert(venue_ranks[first] == rank(snapshot[first], side));
    assert(venue_ranks[k] == rank(snapshot[k], side));
}

/// The split is what the venue gives to an order of the given side: it bears
/// the venue's name and price, and its quantity is positive and no more than
/// the venue offers.
pub open spec fn comes_from(split: OrderSplitView, venue: LiquidityView, side: OrderSide) -> bool {
    &&& split.exchange == venue.exchange
    &&& split.expected_price == venue.price(side)
    &&& 0 < split.quantity.units() <= venue.size(side).units()
}

/// The places in the visit order at which the first `n` visits made a split.
pub open spec fn split_positions(
    snapshot: Seq<LiquidityView>,
    side: OrderSide,
    order: Seq<int>,
    quantity: Decimal,
    n: nat,
) -> Seq<int>
    decreases n,
{
    if n == 0 {
        Seq::empty()
    } else {
        let before = split_positions(snapshot, side, order, quantity, (n - 1) as nat);
        match allocate(snapshot, side, order, quantity, (n - 1) as nat) {
            Some(state) => if state.remaining.units() > 0 && fill_at(
                state.remaining,
                snapshot[order[n - 1]],
                side,
            ).units() > 0 {
                before.push(n - 1)
            } else {
                before
            },
            None => before,
        }
    }
}

/// The venues that the splits of a plan go to, as indices into the snapshot,
/// split by split.
pub open spec fn split_venues(order: OrderView, snapshot: Seq<LiquidityView>, side: OrderSide) -> Seq<int> {
    split_positions(
        snapshot,
        side,
        visit_order(snapshot, side),
        order.quantity,
        snapshot.len(),
    ).map_values(|position: int| visit_order(snapshot, side)[position])
}

/// Each split was made at its place in the visit order, and the places
/// ascend.
proof fn lemma_split_positions(
    snapshot: Seq<LiquidityView>,
    side: OrderSide,
    order: Seq<int>,
    quantity: Decimal,
    n: nat,
)
    requires
        allocate(snapshot, side, order, quantity, n) is Some,
    ensures
        ({
            let state = allocate(snapshot, side, order, quantity, n).unwrap();
            let positions = split_positions(snapshot, side, order, quantity, n);
            &&& positions.len() == state.splits.len()
            &&& forall|j: int| 0 <= j < positions.len() ==> 0 <= #[trigger] positions[j] < n
            &&& forall|j: int, k: int|
                0 <= j < k < positions.len() ==> #[trigger] positions[j] < #[trigger] positions[k]
            &&& forall|j: int|
                0 <= j < positions.len() ==> comes_from(
                    #[trigger] state.splits[j],
                    snapshot[order[positions[j]]],
                    side,
                )
        }),
    decreases n,
{
    if n > 0 {
        lemma_split_positions(snapshot, side, order, quantity, (n - 1) as nat);
    }
}

/// The splits follow the visit order of the snapshot, with `venues` naming
/// the venue of each split. Each split bears its venue's name and price and
/// takes no more than the venue offers; no venue gets two splits; and a split
/// comes before another exactly as its venue is visited before the other's:
/// better price first, and of equal prices the venue that stands first in
/// the snapshot.
pub open spec fn splits_follow_visit_order(
    splits: Seq<OrderSplitView>,
    snapshot: Seq<LiquidityView>,
    side: OrderSide,
    venues: Seq<int>,
) -> bool {
    &&& venues.len() == splits.len()
    &&& forall|j: int|
        0 <= j < venues.len() ==> 0 <= #[trigger] venues[j] < snapshot.len() && comes_from(
            splits[j],
            snapshot[venues[j]],
            side,
        )
    &&& forall|j: int, k: int|
        0 <= j < k < venues.len() ==> precedes(
            ranks(snapshot, side),
            #[trigger] venues[j],
            #[trigger] venues[k],
        )
}

/// The splits of every plan follow the visit order of the snapshot.
pub proof fn lemma_splits_follow_visit_order(
    order: OrderView,
    snapshot: Seq<LiquidityView>,
    side: OrderSide,
)
    requires
        plan_outcome(order, snapshot, side) matches Some(Ok(_)),
    ensures
        splits_follow_visit_order(
            plan_outcome(order, snapshot, side).unwrap().unwrap().splits,
            snapshot,
            side,
            split_venues(order, snapshot, side),
        ),
{
    let visits = visit_order(snapshot, side);
    let n = snapshot.len();
    lemma_visit_order(ranks(snapshot, side), n);
    lemma_split_positions(snapshot, side, visits, order.quantity, n);
    let positions = split_positions(snapshot, side, visits, order.quantity, n);
    let venues = split_venues(order, snapshot, side);
    assert forall|j: int, k: int| 0 <= j < k < venues.len() implies precedes(
        ranks(snapshot, side),
        #[trigger] venues[j],
        #[trigger] venues[k],
    ) by {
        assert(positions[j] < positions[k]);
        assert(venues[j] == visits[positions[j]]);
        assert(venues[k] == visits[positions[k]]);
    }
}

/// Where no cost was rounded, the total is what the splits cost.
proof fn lemma_walk_cost(
    snapshot: Seq<LiquidityView>,
    side: OrderSide,
    order: Seq<int>,
    quantity: Decimal,
    n: nat,
)
    requires
        walk_cost_is_exact(snapshot, side, order, quantity, n),
        allocate(snapshot, side, order, quantity, n) is Some,
    ensures
        allocate(snapshot, side, order, quantity, n).unwrap().total.units() * unit() == notional(
            allocate(snapshot, side, order, quantity, n).unwrap().splits,
        ),
    decreases n,
{
    if n == 0 {
        Decimal::lemma_from_parts(0, 0);
        Decimal::from_parts(0, 0).lemma_units_sign();
        let zero = Decimal::from_parts(0, 0).units();
        assert(zero * unit() == 0) by (nonlinear_arith)
            requires
                zero == 0,
        ;
    } else {
        lemma_walk_cost(snapshot, side, order, quantity, (n - 1) as nat);
        let before = allocate(snapshot, side, order, quantity, (n - 1) as nat).unwrap();
        let after = allocate(snapshot, side, order, quantity, n).unwrap();
        let venue = snapshot[order[n - 1]];
        let fill = fill_at(before.remaining, venue, side);
        if before.remaining.units() > 0 && fill.units() > 0 {
            lemma_filled_push(before.splits, split_at(fill, venue, side));
            let cost = decimal_product(fill, venue.price(side)).unwrap();
            let (t, c, u) = (before.total.units(), cost.units(), unit());
            assert((t + c) * u == t * u + c * u) by (nonlinear_arith);
        }
    }
}

/// Splits at prices no better than `best` cost at least (for a buy) or earn
/// at most (for a sell) what their quantity would at `best`.
proof fn lemma_notional_bound(splits: Seq<OrderSplitView>, best: int, side: OrderSide)
    requires
        forall|j: int| 0 <= j < splits.len() ==> (#[trigger] splits[j]).quantity.units() > 0,
        forall|j: int|
            0 <= j < splits.len() ==> match side {
                OrderSide::Buy => (#[trigger] splits[j]).expected_price.units() >= best,
                OrderSide::Sell => splits[j].expected_price.units() <= best,
            },
    ensures
        match side {
            OrderSide::Buy => notional(splits) >= best * filled(splits),
            OrderSide::Sell => notional(splits) <= best * filled(splits),
        },
    decreases splits.len(),
{
    if splits.len() == 0 {
        assert(best * 0 == 0) by (nonlinear_arith);
    } else {
        let rest = splits.drop_last();
        assert forall|j: int| 0 <= j < rest.len() implies (#[trigger] rest[j]).quantity.units()
            > 0 by {
            assert(rest[j] == splits[j]);
        }
        assert forall|j: int| 0 <= j < rest.len() implies match side {
            OrderSide::Buy => (#[trigger] rest[j]).expected_price.units() >= best,
            OrderSide::Sell => rest[j].expected_price.units() <= best,
        } by {
            assert(rest[j] == splits[j]);
        }
        lemma_notional_bound(rest, best, side);
        let q = splits.last().quantity.units();
        let p = splits.last().expected_price.units();
        let f = filled(rest);
        assert(splits[splits.len() - 1] == splits.last());
        assert(best * (f + q) == best * f + best * q) by (nonlinear_arith);
        assert(p >= best ==> q * p >= best * q) by (nonlinear_arith)
            requires
                q > 0,
        ;
        assert(p <= best ==> q * p <= best * q) by (nonlinear_arith)
            requires
                q > 0,
        ;
    }
}

/// The total that a plan's blended price is derived from is never better
/// than the best price allows. For a buy the splits cost at least the best
/// ask times the ordered quantity, so the exact blended price is at least the
/// best ask; for a sell they earn at most the best bid times the quantity.
/// This holds where no remaining quantity and no cost was rounded. The
/// blended price of the plan is the quotient of that total and the quantity
/// as `rust_decimal` rounds it.
pub proof fn lemma_total_against_best_price(
    order: OrderView,
    snapshot: Seq<LiquidityView>,
    side: OrderSide,
)
    requires
        order.quantity.is_positive(),
        plan_outcome(order, snapshot, side) matches Some(Ok(_)),
        quantities_exact(order, snapshot, side),
        costs_exact(order, snapshot, side),
    ensures
        ({
            let plan = plan_outcome(order, snapshot, side).unwrap().unwrap();
            let total = final_allocation(order, snapshot, side).unwrap().total;
            let best = best_price(snapshot, side);
            &&& decimal_quotient(total, order.quantity) == Some(plan.average_price)
            &&& total.units() * unit() == notional(plan.splits)
            &&& match side {
                OrderSide::Buy => total.units() * unit() >= best.units() * order.quantity.units(),
                OrderSide::Sell => total.units() * unit() <= best.units() * order.quantity.units(),
            }
        }),
{
    let visits = visit_order(snapshot, side);
    let n = snapshot.len();
    let plan = plan_outcome(order, snapshot, side).unwrap().unwrap();
    let best = best_price(snapshot, side);
    lemma_conservation(order, snapshot, side);
    lemma_walk_cost(snapshot, side, visits, order.quantity, n);
    lemma_splits_follow_visit_order(order, snapshot, side);
    lemma_best_price(snapshot, side, n);
    let venues = split_venues(order, snapshot, side);
    assert forall|j: int| 0 <= j < plan.splits.len() implies (#[trigger] plan.splits[j]).quantity.units()
        > 0 by {
        assert(comes_from(plan.splits[j], snapshot[venues[j]], side));
    }
    assert forall|j: int| 0 <= j < plan.splits.len() implies match side {
        OrderSide::Buy => (#[trigger] plan.splits[j]).expected_price.units() >= best.units(),
        OrderSide::Sell => plan.splits[j].expected_price.units() <= best.units(),
    } by {
        assert(comes_from(plan.splits[j], snapshot[venues[j]], side));
        assert(0 <= venues[j] < n);
    }
    lemma_notional_bound(plan.splits, best.units(), side);
}

/// Deriving blended price and slippage from the total rounds to the
/// nearest, at a scale at which the best price can be written. The blended
/// price and the slippage ratio are quotients within half a step of the
/// exact ones; the gap between blended and best price, and the percentage,
/// are exact.
pub open spec fn settlement_is_nearest(
    order: OrderView,
    snapshot: Seq<LiquidityView>,
    side: OrderSide,
) -> bool {
    final_allocation(order, snapshot, side) matches Some(state) && {
        let best = best_price(snapshot, side);
        &&& quotient_is_nearest(state.total, order.quantity)
        &&& decimal_quotient(state.total, order.quantity) matches Some(average) && {
            let (high, low) = match side {
                OrderSide::Buy => (average, best),
                OrderSide::Sell => (best, average),
            };
            &&& best.on_scale(average.spec_scale())
            &&& difference_is_exact(high, low)
            &&& decimal_difference(high, low) matches Some(gap) && {
                &&& quotient_is_nearest(gap, best)
                &&& decimal_quotient(gap, best) matches Some(ratio) ==> product_is_exact(
                    ratio,
                    Decimal::from_parts(100, 0),
                )
            }
        }
    }
}

/// A multiple `a` of the step `g` that is within half a step of the quotient
/// of `t` and `q` is not below a multiple `b` of the step that the quotient
/// is not below.
proof fn lemma_nearest_not_below(a: int, ka: int, b: int, kb: int, g: int, q: int, t: int)
    by (nonlinear_arith)
    requires
        g > 0,
        q > 0,
        a == ka * g,
        b == kb * g,
        t >= b * q,
        2 * (t - a * q) <= q * g,
    ensures
        a >= b,
{
    if a < b {
        assert(ka < kb);
        assert(a + g <= b);
        assert((a + g) * q <= b * q);
        assert(a * q + g * q <= t);
    }
}

/// A multiple `a` of the step `g` that is within half a step of the quotient
/// of `t` and `q` is not above a multiple `b` of the step that the quotient
/// is not above.
proof fn lemma_nearest_not_above(a: int, ka: int, b: int, kb: int, g: int, q: int, t: int)
    by (nonlinear_arith)
    requires
        g > 0,
        q > 0,
        a == ka * g,
        b == kb * g,
        t <= b * q,
        2 * (a * q - t) <= q * g,
    ensures
        a <= b,
{
    if a > b {
        assert(ka > kb);
        assert(a - g >= b);
        assert((a - g) * q >= b * q);
        assert(a * q - g * q >= t);
    }
}

/// A plan whose amounts are exact and whose quotients are rounded to the
/// nearest is never better than the best price allows: a buy's blended
/// price is at least the best ask, a sell's at most the best bid, and in
/// both cases the slippage is not negative.
pub proof fn lemma_plan_against_best_price(
    order: OrderView,
    snapshot: Seq<LiquidityView>,
    side: OrderSide,
)
    requires
        order.quantity.is_positive(),
        snapshot_valid(snapshot),
        plan_outcome(order, snapshot, side) matches Some(Ok(_)),
        quantities_exact(order, snapshot, side),
        costs_exact(order, snapshot, side),
        settlement_is_nearest(order, snapshot, side),
    ensures
        ({
            let plan = plan_outcome(order, snapshot, side).unwrap().unwrap();
            let best = best_price(snapshot, side);
            &&& match side {
                OrderSide::Buy => plan.average_price.units() >= best.units(),
                OrderSide::Sell => plan.average_price.units() <= best.units(),
            }
            &&& plan.estimated_slippage.units() >= 0
        }),
{
    let plan = plan_outcome(order, snapshot, side).unwrap().unwrap();
    let total = final_allocation(order, snapshot, side).unwrap().total;
    let best = best_price(snapshot, side);
    let average = plan.average_price;
    lemma_total_against_best_price(order, snapshot, side);
    lemma_best_price(snapshot, side, snapshot.len());
    lemma_pow_positive(10, 28);
    let (a, q, t, b, u) = (
        average.units(),
        order.quantity.units(),
        total.units() * unit(),
        best.units(),
        unit(),
    );
    assert(b >= 0) by {
        let k = choose|k: int| 0 <= k < snapshot.len() && best == (#[trigger] snapshot[k]).price(side);
        assert(snapshot[k].valid());
    }
    // the blended price against the best price
    let g = step(average.spec_scale());
    lemma_pow_positive(10, (28 - average.spec_scale()) as nat);
    lemma_fundamental_div_mod(b, g);
    assert(b == (b / g) * g) by (nonlinear_arith)
        requires
            b == g * (b / g) + b % g,
            b % g == 0,
    ;
    match side {
        OrderSide::Buy => {
            lemma_nearest_not_below(a, average.spec_mantissa(), b, b / g, g, q, t);
        },
        OrderSide::Sell => {
            lemma_nearest_not_above(a, average.spec_mantissa(), b, b / g, g, q, t);
        },
    }
    // the slippage
    let (high, low) = match side {
        OrderSide::Buy => (average, best),
        OrderSide::Sell => (best, average),
    };
    let gap = decimal_difference(high, low).unwrap();
    let ratio = decimal_quotient(gap, best).unwrap();
    let r = ratio.units();
    let s = plan.estimated_slippage.units();
    let gr = step(ratio.spec_scale());
    lemma_pow_positive(10, (28 - ratio.spec_scale()) as nat);
    assert(gap.units() * u >= 0) by (nonlinear_arith)
        requires
            gap.units() >= 0,
            u > 0,
    ;
    assert(0 * b == 0 && 0 * gr == 0) by (nonlinear_arith);
    lemma_nearest_not_below(r, ratio.spec_mantissa(), 0, 0, gr, b, gap.units() * u);
    Decimal::lemma_from_parts(100, 0);
    let h = Decimal::from_parts(100, 0).units();
    assert(h > 0) by {
        Decimal::from_parts(100, 0).lemma_units_sign();
    }
    assert(s >= 0) by (nonlinear_arith)
        requires
            s * u == r * h,
            r >= 0,
            h > 0,
            u > 0,
    ;
}

} // verus!
