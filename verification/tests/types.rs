use smart_order_router::decimal::Decimal;
use smart_order_router::text::{append_i64, append_u64, append_usize};
use smart_order_router::types::{
    Liquidity, Order, OrderSide, OrderSplit, OrderType, RoutingResult, TradingPair,
};
use smart_order_router::{Order as RootOrder, TradingPair as RootPair};

fn dec(text: &str) -> Decimal {
    Decimal::parse(text).unwrap()
}

#[test]
fn pair_holds_its_symbols() {
    let pair = TradingPair::new("BTC", "USD");
    assert_eq!(pair.base, "BTC");
    assert_eq!(pair.quote, "USD");
    assert_eq!(pair.to_text(), "BTC/USD");
    assert_eq!(TradingPair::new("", "").to_text(), "/");
    let copy = pair.clone();
    assert_eq!(copy.base, "BTC");
    assert_eq!(copy.quote, "USD");
}

#[test]
fn types_are_exported_at_the_root() {
    let order: RootOrder = Order {
        pair: RootPair::new("ETH", "EUR"),
        side: OrderSide::Sell,
        order_type: OrderType::Limit,
        quantity: dec("2"),
        limit_price: Some(dec("1800")),
    };
    let copy = order.clone();
    assert_eq!(copy.pair.to_text(), "ETH/EUR");
    assert_eq!(copy.side, OrderSide::Sell);
    assert_eq!(copy.order_type, OrderType::Limit);
    assert_eq!(copy.quantity, dec("2"));
    assert_eq!(copy.limit_price, Some(dec("1800")));
}

#[test]
fn quote_has_a_price_and_a_size_for_each_side() {
    let quote = Liquidity {
        exchange: "A".to_string(),
        pair: TradingPair::new("BTC", "USD"),
        bid_price: dec("99"),
        bid_quantity: dec("1.5"),
        ask_price: dec("101"),
        ask_quantity: dec("2.5"),
    };
    assert_eq!(quote.price(OrderSide::Buy), dec("101"));
    assert_eq!(quote.size(OrderSide::Buy), dec("2.5"));
    assert_eq!(quote.price(OrderSide::Sell), dec("99"));
    assert_eq!(quote.size(OrderSide::Sell), dec("1.5"));
    assert!(quote.is_valid());
    let mut bad = quote.clone();
    bad.ask_quantity = dec("-1");
    assert!(!bad.is_valid());
    let mut bad = quote.clone();
    bad.bid_price = dec("-0.01");
    assert!(!bad.is_valid());
}

#[test]
fn whole_numbers_as_text() {
    let mut text = String::from("n=");
    append_u64(&mut text, 0);
    assert_eq!(text, "n=0");
    append_u64(&mut text, 1234567890);
    assert_eq!(text, "n=01234567890");
    let mut text = String::new();
    append_u64(&mut text, u64::MAX);
    assert_eq!(text, "18446744073709551615");
    let mut text = String::new();
    append_usize(&mut text, 907);
    assert_eq!(text, "907");
    let mut text = String::new();
    append_i64(&mut text, -42);
    append_i64(&mut text, 42);
    assert_eq!(text, "-4242");
    let mut text = String::new();
    append_i64(&mut text, i64::MIN);
    assert_eq!(text, "-9223372036854775808");
    let mut text = String::new();
    append_i64(&mut text, i64::MAX);
    assert_eq!(text, "9223372036854775807");
}

#[test]
fn pairs_compare_by_their_symbols() {
    assert_eq!(TradingPair::new("BTC", "USD"), TradingPair::new("BTC", "USD"));
    assert_ne!(TradingPair::new("BTC", "USD"), TradingPair::new("BTC", "EUR"));
    assert_ne!(TradingPair::new("BTC", "USD"), TradingPair::new("ETH", "USD"));
}

#[test]
fn a_plan_can_be_copied() {
    let plan = RoutingResult {
        original_order: Order {
            pair: TradingPair::new("BTC", "USD"),
            side: OrderSide::Buy,
            order_type: OrderType::Market,
            quantity: dec("1.5"),
            limit_price: None,
        },
        splits: vec![
            OrderSplit { exchange: "A".to_string(), quantity: dec("1.0"), expected_price: dec("100") },
            OrderSplit { exchange: "B".to_string(), quantity: dec("0.5"), expected_price: dec("101") },
        ],
        total_quantity: dec("1.5"),
        average_price: dec("100.33"),
        estimated_slippage: dec("0.33"),
    };
    let copy = plan.clone();
    assert_eq!(format!("{:?}", copy), format!("{:?}", plan));
    assert_eq!(copy.splits.len(), 2);
    assert_eq!(copy.splits[1].exchange, "B");
    let split = plan.splits[0].clone();
    assert_eq!(split.exchange, "A");
    assert_eq!(split.quantity, dec("1.0"));
    assert_eq!(split.expected_price, dec("100"));
}
