use smart_order_router::decimal::Decimal;
use smart_order_router::router::optimizer::{
    can_optimize, estimate_slippage, find_best_price, optimize_buy_order, optimize_sell_order,
    try_optimize_order, RoutingError, Walk,
};
use smart_order_router::router::visit::sort_venues;
use smart_order_router::router::{collect_snapshot, route, try_route};
use smart_order_router::types::{Liquidity, Order, OrderSide, OrderType, RoutingResult, TradingPair};

fn dec(text: &str) -> Decimal {
    Decimal::parse(text).unwrap()
}

fn order(side: OrderSide, quantity: &str) -> Order {
    Order {
        pair: TradingPair::new("BTC", "USD"),
        side,
        order_type: OrderType::Market,
        quantity: dec(quantity),
        limit_price: None,
    }
}

fn asking(name: &str, ask: &str, size: &str) -> Liquidity {
    Liquidity {
        exchange: name.to_string(),
        pair: TradingPair::new("BTC", "USD"),
        bid_price: dec("1"),
        bid_quantity: dec("0"),
        ask_price: dec(ask),
        ask_quantity: dec(size),
    }
}

fn bidding(name: &str, bid: &str, size: &str) -> Liquidity {
    Liquidity {
        exchange: name.to_string(),
        pair: TradingPair::new("BTC", "USD"),
        bid_price: dec(bid),
        bid_quantity: dec(size),
        ask_price: dec("1000000"),
        ask_quantity: dec("0"),
    }
}

/// An amount of at most 8 decimal places in units of 10^-8, as an integer.
fn exact(amount: Decimal) -> i128 {
    assert!(amount.scale() <= 8);
    amount.mantissa() * 10i128.pow(8 - amount.scale())
}

/// What the splits fill in total, in units of 10^-8.
fn filled(plan: &RoutingResult) -> i128 {
    plan.splits.iter().map(|split| exact(split.quantity)).sum()
}

fn fills(plan: &RoutingResult) -> Vec<(String, Decimal, Decimal)> {
    plan.splits.iter().map(|s| (s.exchange.clone(), s.quantity, s.expected_price)).collect()
}

#[test]
fn buy_splits_across_two_venues() {
    let snapshot = vec![asking("A", "100", "1.0"), asking("B", "101", "1.0")];
    let plan = route(&order(OrderSide::Buy, "1.5"), &snapshot).unwrap();
    assert_eq!(
        fills(&plan),
        vec![
            ("A".to_string(), dec("1.0"), dec("100")),
            ("B".to_string(), dec("0.5"), dec("101")),
        ]
    );
    assert_eq!(plan.total_quantity, dec("1.5"));
    // (100 + 50.5) / 1.5 = 100.333...
    assert_eq!(plan.average_price, dec("100.33333333333333333333333333"));
    assert_eq!(plan.average_price.mantissa(), 10033333333333333333333333333);
    assert_eq!(plan.average_price.scale(), 26);
    assert_eq!(plan.estimated_slippage, dec("0.33333333333333333333333333"));
    assert_eq!(plan.original_order.quantity, dec("1.5"));
    assert_eq!(plan.original_order.side, OrderSide::Buy);
    assert_eq!(plan.original_order.pair.base, "BTC");
}

#[test]
fn sell_splits_across_two_venues() {
    let snapshot = vec![bidding("A", "99", "0.5"), bidding("B", "98", "2.0")];
    let plan = route(&order(OrderSide::Sell, "2.0"), &snapshot).unwrap();
    assert_eq!(
        fills(&plan),
        vec![
            ("A".to_string(), dec("0.5"), dec("99")),
            ("B".to_string(), dec("1.5"), dec("98")),
        ]
    );
    // (49.5 + 147) / 2.0 = 98.25
    assert_eq!(plan.average_price, dec("98.25"));
    // (99 - 98.25) / 99 * 100 = 0.7575...
    assert_eq!(plan.estimated_slippage, dec("0.7575757575757575757575757600"));
    assert!(plan.estimated_slippage > dec("0.7575"));
    assert!(plan.estimated_slippage < dec("0.7576"));
}

#[test]
fn buy_beyond_the_only_venue_is_insufficient() {
    let snapshot = vec![asking("A", "100", "2.0")];
    let r = route(&order(OrderSide::Buy, "5.0"), &snapshot);
    assert_eq!(r.unwrap_err(), RoutingError::InsufficientLiquidity);
}

#[test]
fn empty_snapshot_has_no_liquidity() {
    let snapshot: Vec<Liquidity> = Vec::new();
    let r = route(&order(OrderSide::Buy, "1.0"), &snapshot);
    assert_eq!(r.unwrap_err(), RoutingError::NoLiquidityAvailable);
    let r = route(&order(OrderSide::Sell, "1.0"), &snapshot);
    assert_eq!(r.unwrap_err(), RoutingError::NoLiquidityAvailable);
    assert!(matches!(
        try_route(&order(OrderSide::Buy, "1.0"), &snapshot),
        Some(Err(RoutingError::NoLiquidityAvailable))
    ));
}

#[test]
fn equal_prices_keep_the_order_of_the_snapshot() {
    let snapshot =
        vec![asking("C", "100", "5.0"), asking("A", "100", "1.0"), asking("B", "100", "1.0")];
    let plan = route(&order(OrderSide::Buy, "3.0"), &snapshot).unwrap();
    assert_eq!(fills(&plan), vec![("C".to_string(), dec("3.0"), dec("100"))]);
    assert_eq!(plan.average_price, dec("100"));
    assert_eq!(plan.estimated_slippage, dec("0"));
    assert!(plan.estimated_slippage.is_zero());
}

#[test]
fn equal_bids_keep_the_order_of_the_snapshot() {
    let snapshot =
        vec![bidding("C", "100", "1.0"), bidding("A", "100.0", "1.0"), bidding("B", "101", "0.5")];
    let plan = route(&order(OrderSide::Sell, "2.5"), &snapshot).unwrap();
    assert_eq!(
        fills(&plan),
        vec![
            ("B".to_string(), dec("0.5"), dec("101")),
            ("C".to_string(), dec("1.0"), dec("100")),
            ("A".to_string(), dec("1.0"), dec("100")),
        ]
    );
}

#[test]
fn venues_are_visited_best_price_first() {
    let asks = vec![
        asking("A", "103", "1"),
        asking("B", "101", "1"),
        asking("C", "102", "1"),
        asking("D", "101.0", "1"),
        asking("E", "100", "1"),
    ];
    assert_eq!(sort_venues(&asks, OrderSide::Buy), vec![4, 1, 3, 2, 0]);
    let bids = vec![
        bidding("A", "103", "1"),
        bidding("B", "101", "1"),
        bidding("C", "103.00", "1"),
        bidding("D", "104", "1"),
    ];
    assert_eq!(sort_venues(&bids, OrderSide::Sell), vec![3, 0, 2, 1]);
    let none: Vec<Liquidity> = Vec::new();
    assert_eq!(sort_venues(&none, OrderSide::Buy), Vec::<usize>::new());
}

#[test]
fn best_price_is_the_lowest_ask_or_the_highest_bid() {
    let asks = vec![asking("A", "103", "1"), asking("B", "101.0", "1"), asking("C", "101", "1")];
    let best = find_best_price(&asks, OrderSide::Buy);
    assert_eq!(best, dec("101"));
    // of equal asks the first is taken, scale and all
    assert_eq!(best.scale(), 1);
    let bids = vec![bidding("A", "99.0", "1"), bidding("B", "97", "1"), bidding("C", "99", "1")];
    let best = find_best_price(&bids, OrderSide::Sell);
    assert_eq!(best, dec("99"));
    // of equal bids the last is taken
    assert_eq!(best.scale(), 0);
}

#[test]
fn fills_add_up_to_the_ordered_quantity() {
    let snapshot = vec![
        asking("A", "50050.0", "2.0"),
        asking("B", "50000.0", "1.8"),
        asking("C", "50030.0", "1.5"),
    ];
    let plan = route(&order(OrderSide::Buy, "4.25"), &snapshot).unwrap();
    assert_eq!(
        fills(&plan),
        vec![
            ("B".to_string(), dec("1.8"), dec("50000.0")),
            ("C".to_string(), dec("1.5"), dec("50030.0")),
            ("A".to_string(), dec("0.95"), dec("50050.0")),
        ]
    );
    assert_eq!(filled(&plan), 425_000_000);
    assert_eq!(filled(&plan), exact(plan.original_order.quantity));
    assert_eq!(plan.total_quantity, dec("4.25"));
    for (split, venue) in plan.splits.iter().zip([&snapshot[1], &snapshot[2], &snapshot[0]]) {
        assert!(exact(split.quantity) > 0);
        assert!(exact(split.quantity) <= exact(venue.ask_quantity));
    }
    // (1.8 * 50000 + 1.5 * 50030 + 0.95 * 50050) / 4.25
    assert_eq!(plan.average_price, dec("212592.5").checked_div(dec("4.25")).unwrap());
}

#[test]
fn blended_price_is_not_better_than_the_best_price() {
    let snapshot = vec![
        asking("A", "50050.0", "2.0"),
        asking("B", "50000.0", "1.8"),
        asking("C", "50030.0", "1.5"),
    ];
    let plan = route(&order(OrderSide::Buy, "4.25"), &snapshot).unwrap();
    assert!(plan.average_price >= dec("50000"));
    assert!(plan.estimated_slippage >= dec("0"));
    // the splits cost 212592.5, which is more than 4.25 at 50000 each
    let cost: i128 =
        plan.splits.iter().map(|s| exact(s.quantity) * exact(s.expected_price)).sum();
    assert_eq!(cost, 21_259_250_000_000 * 100_000_000);
    assert!(cost >= exact(dec("50000")) * filled(&plan));
    let snapshot = vec![
        bidding("A", "50000.0", "1.5"),
        bidding("B", "49950.0", "1.2"),
        bidding("C", "49980.0", "2.5"),
    ];
    let plan = route(&order(OrderSide::Sell, "4.25"), &snapshot).unwrap();
    assert!(plan.average_price <= dec("50000"));
    assert!(plan.estimated_slippage >= dec("0"));
    assert_eq!(filled(&plan), 425_000_000);
    let earned: i128 =
        plan.splits.iter().map(|s| exact(s.quantity) * exact(s.expected_price)).sum();
    assert!(earned <= exact(dec("50000")) * filled(&plan));
}

#[test]
fn routing_twice_gives_the_same_plan() {
    let snapshot = vec![
        asking("A", "50050.0", "2.0"),
        asking("B", "50000.0", "1.8"),
        asking("C", "50030.0", "1.5"),
    ];
    let first = route(&order(OrderSide::Buy, "4.25"), &snapshot).unwrap();
    let second = route(&order(OrderSide::Buy, "4.25"), &snapshot).unwrap();
    assert_eq!(format!("{:?}", first), format!("{:?}", second));
}

#[test]
fn total_size_below_the_quantity_is_insufficient() {
    let snapshot = vec![asking("A", "100", "1.0"), asking("B", "101", "0.99")];
    assert_eq!(
        route(&order(OrderSide::Buy, "2.0"), &snapshot).unwrap_err(),
        RoutingError::InsufficientLiquidity
    );
    // the same sizes suffice for a hundredth less
    assert!(route(&order(OrderSide::Buy, "1.99"), &snapshot).is_ok());
    let snapshot = vec![bidding("A", "100", "1.0"), bidding("B", "101", "0.99")];
    assert_eq!(
        route(&order(OrderSide::Sell, "2.0"), &snapshot).unwrap_err(),
        RoutingError::InsufficientLiquidity
    );
}

#[test]
fn a_venue_that_offers_nothing_gets_no_split() {
    let snapshot = vec![asking("A", "99", "0"), asking("B", "100", "1.0")];
    let plan = route(&order(OrderSide::Buy, "1.0"), &snapshot).unwrap();
    assert_eq!(fills(&plan), vec![("B".to_string(), dec("1.0"), dec("100"))]);
    // the slippage is measured against the best price quoted, size or no size
    assert!(plan.estimated_slippage > dec("1.01"));
    assert!(plan.estimated_slippage < dec("1.02"));
}

#[test]
fn the_walk_stops_when_the_order_is_filled() {
    let snapshot = vec![asking("A", "100", "1.0"), asking("B", "101", "1.0")];
    let plan = route(&order(OrderSide::Buy, "1.0"), &snapshot).unwrap();
    assert_eq!(fills(&plan), vec![("A".to_string(), dec("1.0"), dec("100"))]);
}

#[test]
fn optimizers_use_their_own_side_of_the_book() {
    let snapshot = vec![Liquidity {
        exchange: "A".to_string(),
        pair: TradingPair::new("BTC", "USD"),
        bid_price: dec("99"),
        bid_quantity: dec("1"),
        ask_price: dec("101"),
        ask_quantity: dec("1"),
    }];
    let buy = optimize_buy_order(&order(OrderSide::Buy, "1"), &snapshot).unwrap();
    assert_eq!(buy.splits[0].expected_price, dec("101"));
    let sell = optimize_sell_order(&order(OrderSide::Sell, "1"), &snapshot).unwrap();
    assert_eq!(sell.splits[0].expected_price, dec("99"));
}

#[test]
fn try_route_refuses_what_route_does_not_admit() {
    let snapshot = vec![asking("A", "100", "1.0")];
    // a quantity that is not positive
    assert!(try_route(&order(OrderSide::Buy, "0"), &snapshot).is_none());
    assert!(try_route(&order(OrderSide::Buy, "-1"), &snapshot).is_none());
    // a best price of zero, against which no slippage can be measured
    let free = vec![asking("A", "0", "1.0")];
    assert!(try_route(&order(OrderSide::Buy, "1"), &free).is_none());
    // a cost beyond what a decimal can hold
    let dear = vec![asking("A", "79228162514264337593543950335", "2")];
    assert!(try_optimize_order(&order(OrderSide::Buy, "2"), &dear, OrderSide::Buy).is_none());
    // and what it admits
    let plan = try_route(&order(OrderSide::Buy, "1"), &snapshot).unwrap().unwrap();
    assert_eq!(plan.average_price, dec("100"));
}

#[test]
fn snapshot_keeps_the_venues_that_answered() {
    let answers = vec![
        Some(asking("A", "100", "1.0")),
        None,
        Some(asking("B", "101", "1.0")),
        None,
    ];
    let snapshot = collect_snapshot(answers);
    let names: Vec<&str> = snapshot.iter().map(|l| l.exchange.as_str()).collect();
    assert_eq!(names, vec!["A", "B"]);
    assert!(collect_snapshot(vec![None, None]).is_empty());
}

#[test]
fn errors_have_their_messages() {
    assert_eq!(RoutingError::NoLiquidityAvailable.message(), "No liquidity available");
    assert_eq!(
        RoutingError::InsufficientLiquidity.message(),
        "Insufficient liquidity to fill order"
    );
}

#[test]
fn a_walk_visits_venue_by_venue() {
    let walk = Walk::begin(dec("1.5"));
    assert!(walk.splits.is_empty());
    assert_eq!(walk.total, dec("0"));
    assert_eq!(walk.remaining, dec("1.5"));
    let walk = walk.visit(&asking("A", "100", "1.0"), OrderSide::Buy).unwrap();
    assert_eq!(walk.splits.len(), 1);
    assert_eq!(walk.total, dec("100"));
    assert_eq!(walk.remaining, dec("0.5"));
    // a venue without size on the side in question changes nothing
    let walk = walk.visit(&bidding("B", "100", "1.0"), OrderSide::Buy).unwrap();
    assert_eq!(walk.splits.len(), 1);
    assert_eq!(walk.remaining, dec("0.5"));
    let walk = walk.visit(&asking("C", "101", "1.0"), OrderSide::Buy).unwrap();
    assert_eq!(walk.splits.len(), 2);
    assert_eq!(walk.splits[1].exchange, "C");
    assert_eq!(walk.splits[1].quantity, dec("0.5"));
    assert_eq!(walk.total, dec("150.5"));
    assert!(walk.remaining.is_zero());
    // nor does any venue once the order is filled
    let walk = walk.visit(&asking("D", "1", "1.0"), OrderSide::Buy).unwrap();
    assert_eq!(walk.splits.len(), 2);
    assert_eq!(walk.total, dec("150.5"));
}

#[test]
fn a_walk_without_a_result() {
    let max = "79228162514264337593543950335";
    let walk = Walk::begin(dec("2"));
    assert!(walk.visit(&asking("A", max, "2"), OrderSide::Buy).is_none());
    let walk = Walk { splits: Vec::new(), total: dec(max), remaining: dec("1") };
    assert!(walk.visit(&asking("A", "1", "1"), OrderSide::Buy).is_none());
}

#[test]
fn settling_a_walk() {
    let o = order(OrderSide::Sell, "2.0");
    let open = Walk { splits: Vec::new(), total: dec("49.5"), remaining: dec("1.5") };
    assert_eq!(
        open.settle(&o, OrderSide::Sell, dec("99")).unwrap().unwrap_err(),
        RoutingError::InsufficientLiquidity
    );
    let done = Walk { splits: Vec::new(), total: dec("196.5"), remaining: dec("0") };
    let plan = done.settle(&o, OrderSide::Sell, dec("99")).unwrap().unwrap();
    assert_eq!(plan.average_price, dec("98.25"));
    assert_eq!(plan.total_quantity, dec("2.0"));
    assert!(plan.estimated_slippage > dec("0.7575"));
    assert!(plan.estimated_slippage < dec("0.7576"));
    let done = Walk { splits: Vec::new(), total: dec("196.5"), remaining: dec("0") };
    assert!(done.settle(&o, OrderSide::Sell, dec("0")).is_none());
}

#[test]
fn slippage_is_measured_against_the_best_price() {
    assert_eq!(estimate_slippage(dec("101"), dec("100"), OrderSide::Buy), Some(dec("1")));
    assert_eq!(estimate_slippage(dec("99"), dec("100"), OrderSide::Sell), Some(dec("1")));
    assert_eq!(estimate_slippage(dec("99"), dec("100"), OrderSide::Buy), Some(dec("-1")));
    assert_eq!(estimate_slippage(dec("100"), dec("100"), OrderSide::Sell), Some(dec("0")));
    assert_eq!(estimate_slippage(dec("100"), dec("0"), OrderSide::Buy), None);
}

#[test]
fn an_order_can_be_optimized_or_not() {
    let snapshot = vec![asking("A", "100", "1.0")];
    assert!(can_optimize(&order(OrderSide::Buy, "1"), &snapshot, OrderSide::Buy));
    // too little liquidity is an outcome, not an obstacle
    assert!(can_optimize(&order(OrderSide::Buy, "2"), &snapshot, OrderSide::Buy));
    assert!(can_optimize(&order(OrderSide::Buy, "1"), &[], OrderSide::Buy));
    assert!(!can_optimize(&order(OrderSide::Buy, "0"), &snapshot, OrderSide::Buy));
    assert!(!can_optimize(&order(OrderSide::Buy, "-1"), &[], OrderSide::Buy));
    // the one bid of the venue is 1 for nothing: the order stays open
    assert!(can_optimize(&order(OrderSide::Buy, "1"), &snapshot, OrderSide::Sell));
    let free = vec![asking("A", "0", "1.0")];
    assert!(!can_optimize(&order(OrderSide::Buy, "1"), &free, OrderSide::Buy));
    let plan = try_optimize_order(&order(OrderSide::Sell, "1"), &snapshot, OrderSide::Buy)
        .unwrap()
        .unwrap();
    assert_eq!(plan.splits[0].expected_price, dec("100"));
    assert!(try_optimize_order(&order(OrderSide::Buy, "0"), &snapshot, OrderSide::Buy).is_none());
}

#[test]
fn blended_price_is_the_quotient_rounded_to_the_nearest() {
    let snapshot = vec![asking("A", "100", "1.0"), asking("B", "101", "1.0")];
    let plan = route(&order(OrderSide::Buy, "1.5"), &snapshot).unwrap();
    // total 150.5 over quantity 1.5, in mantissas: average * 15 against 1505 at scale 27
    let average = plan.average_price;
    assert_eq!(average.scale(), 26);
    let product = average.mantissa() * 15;
    let total = 1505 * 10i128.pow(27 - 1);
    // half a step of scale 26 is 5 at scale 27, times the quantity's mantissa
    assert!(2 * (product - total).abs() <= 15 * 10);
    assert_eq!(product - total, -5);
    // and the best price can be written at that scale
    assert!(find_best_price(&snapshot, OrderSide::Buy).scale() <= average.scale());
}
