use smart_order_router::analytics::metrics::{
    calculate_slippage, effective_spread, implementation_shortfall, try_calculate_slippage,
    try_effective_spread, try_implementation_shortfall,
};
use smart_order_router::analytics::ExecutionAnalytics;
use smart_order_router::decimal::Decimal;
use smart_order_router::types::{
    ExecutionResult, Order, OrderSide, OrderSplit, OrderType, RoutingResult, Timestamp, TradingPair,
};

fn dec(text: &str) -> Decimal {
    Decimal::parse(text).unwrap()
}

fn max() -> Decimal {
    Decimal::from_i128_with_scale(79_228_162_514_264_337_593_543_950_335, 0)
}

fn execution(quantity: &str, price: &str, fees: &str) -> ExecutionResult {
    ExecutionResult {
        order_id: "ORDER_1".to_string(),
        exchange: "A".to_string(),
        executed_quantity: dec(quantity),
        executed_price: dec(price),
        fees: dec(fees),
        timestamp: Timestamp { seconds: 1, nanoseconds: 0 },
    }
}

fn routing(total: &str, average: &str, slippage: &str, splits: usize) -> RoutingResult {
    RoutingResult {
        original_order: Order {
            pair: TradingPair::new("BTC", "USD"),
            side: OrderSide::Buy,
            order_type: OrderType::Market,
            quantity: dec(total),
            limit_price: None,
        },
        splits: (0..splits)
            .map(|_| OrderSplit {
                exchange: "A".to_string(),
                quantity: dec("1"),
                expected_price: dec(average),
            })
            .collect(),
        total_quantity: dec(total),
        average_price: dec(average),
        estimated_slippage: dec(slippage),
    }
}

#[test]
fn test_calculate_slippage() {
    let expected = dec("100.0");
    let executed = dec("101.0");
    let slippage = calculate_slippage(expected, executed);
    assert_eq!(slippage, dec("1.0"));
}

#[test]
fn test_implementation_shortfall() {
    let decision = dec("100.0");
    let execution = dec("101.0");
    let quantity = dec("10.0");
    let shortfall = implementation_shortfall(decision, execution, quantity);
    assert_eq!(shortfall, dec("10.0"));
}

#[test]
fn slippage_is_the_size_of_the_gap() {
    assert_eq!(calculate_slippage(dec("100.0"), dec("99.0")), dec("1.0"));
    assert_eq!(calculate_slippage(dec("200"), dec("205")), dec("2.5"));
    assert_eq!(calculate_slippage(dec("100"), dec("100")), dec("0"));
}

#[test]
fn slippage_against_a_price_of_zero_is_zero() {
    assert_eq!(calculate_slippage(dec("0"), dec("101.0")), dec("0"));
    assert_eq!(calculate_slippage(dec("0.00"), dec("101.0")), dec("0"));
    assert_eq!(try_calculate_slippage(dec("0"), max()), Some(dec("0")));
}

#[test]
fn slippage_without_a_result_is_none() {
    assert_eq!(try_calculate_slippage(dec("-1"), max()), None);
    assert_eq!(try_calculate_slippage(dec("0.0000000000000000000000000001"), max()), None);
    assert_eq!(try_calculate_slippage(dec("100.0"), dec("101.0")), Some(dec("1.0")));
}

#[test]
fn shortfall_has_the_sign_of_the_gap() {
    assert_eq!(implementation_shortfall(dec("101"), dec("100"), dec("10")), dec("-10"));
    assert_eq!(try_implementation_shortfall(dec("100"), dec("101.5"), dec("4")), Some(dec("6")));
    assert_eq!(try_implementation_shortfall(dec("-1"), max(), dec("1")), None);
    assert_eq!(try_implementation_shortfall(dec("0"), max(), dec("2")), None);
}

#[test]
fn spread_is_twice_the_gap() {
    assert_eq!(effective_spread(dec("100"), dec("100.25")), dec("0.5"));
    assert_eq!(effective_spread(dec("100"), dec("99.75")), dec("0.5"));
    assert_eq!(try_effective_spread(dec("100"), dec("100")), Some(dec("0")));
    assert_eq!(try_effective_spread(dec("-1"), max()), None);
    assert_eq!(try_effective_spread(dec("0"), max()), None);
}

#[test]
fn analytics_without_executions() {
    let analytics = ExecutionAnalytics::new();
    assert_eq!(analytics.len(), 0);
    assert_eq!(analytics.average_execution_price(), dec("0"));
    assert_eq!(analytics.total_fees(), dec("0"));
    assert_eq!(analytics.fill_rate(dec("10")), dec("0"));
}

#[test]
fn average_price_is_weighted_by_quantity() {
    let mut analytics = ExecutionAnalytics::new();
    analytics.add_result(execution("1", "100", "0.10"));
    analytics.add_result(execution("3", "104", "0.31"));
    assert_eq!(analytics.len(), 2);
    // (100 + 312) / 4
    assert_eq!(analytics.average_execution_price(), dec("103"));
    assert_eq!(analytics.try_average_execution_price(), Some(dec("103")));
    assert_eq!(analytics.total_fees(), dec("0.41"));
    assert_eq!(analytics.try_total_fees(), Some(dec("0.41")));
}

#[test]
fn average_price_without_quantity_is_zero() {
    let mut analytics = ExecutionAnalytics::new();
    analytics.add_result(execution("0", "100", "0"));
    assert_eq!(analytics.average_execution_price(), dec("0"));
    let mut analytics = ExecutionAnalytics::new();
    analytics.add_result(execution("1", "100", "0"));
    analytics.add_result(execution("-1", "100", "0"));
    assert_eq!(analytics.average_execution_price(), dec("0"));
}

#[test]
fn fill_rate_is_a_percentage() {
    let mut analytics = ExecutionAnalytics::new();
    analytics.add_result(execution("1", "100", "0.10"));
    analytics.add_result(execution("0.5", "104", "0.31"));
    assert_eq!(analytics.fill_rate(dec("2")), dec("75"));
    assert_eq!(analytics.try_fill_rate(dec("1.5")), Some(dec("100")));
    assert_eq!(analytics.fill_rate(dec("0")), dec("0"));
    assert_eq!(analytics.fill_rate(dec("-2")), dec("0"));
}

#[test]
fn figures_without_a_result_are_none() {
    let mut analytics = ExecutionAnalytics::new();
    analytics.add_result(ExecutionResult {
        order_id: "ORDER_1".to_string(),
        exchange: "A".to_string(),
        executed_quantity: max(),
        executed_price: dec("2"),
        fees: max(),
        timestamp: Timestamp { seconds: 1, nanoseconds: 0 },
    });
    assert_eq!(analytics.try_average_execution_price(), None);
    assert_eq!(analytics.try_total_fees(), Some(max()));
    assert_eq!(analytics.try_fill_rate(dec("0.001")), None);
    analytics.add_result(execution("1", "1", "1"));
    assert_eq!(analytics.try_total_fees(), None);
    assert_eq!(analytics.try_fill_rate(dec("1")), None);
    assert_eq!(analytics.try_generate_report(&routing("1", "1", "0", 1)), None);
}

#[test]
fn report_lists_the_figures() {
    let mut analytics = ExecutionAnalytics::new();
    analytics.add_result(execution("1", "100", "0.10"));
    analytics.add_result(execution("3", "104", "0.315"));
    let report = analytics.generate_report(&routing("5", "102.5", "0.123456", 2));
    assert_eq!(
        report,
        "Execution Report:\n\
         - Average Price: 103.00\n\
         - Expected Price: 102.50\n\
         - Total Fees: 0.41\n\
         - Fill Rate: 80.00%\n\
         - Estimated Slippage: 0.1234%\n\
         - Exchanges Used: 2"
    );
    assert_eq!(analytics.try_generate_report(&routing("5", "102.5", "0.123456", 2)), Some(report));
}

#[test]
fn report_with_a_figure_too_long_to_print_is_none() {
    let mut analytics = ExecutionAnalytics::new();
    analytics.add_result(execution("1", "100", "0.10"));
    // 28 digits, the point and 4 places are 33 characters
    let long = routing("1", "100", "1000000000000000000000000000", 1);
    assert_eq!(analytics.try_generate_report(&long), None);
    let fits = routing("1", "100", "100000000000000000000000000", 1);
    assert!(analytics.try_generate_report(&fits).is_some());
}
