use smart_order_router::backtesting::simulator::{
    execute_at, simulate_execution, simulate_with_slippage, try_simulate_execution,
    try_simulate_with_slippage,
};
use smart_order_router::backtesting::BacktestEngine;
use smart_order_router::decimal::Decimal;
use smart_order_router::types::{
    ExecutionResult, Order, OrderSide, OrderSplit, OrderType, RoutingResult, Timestamp, TradingPair,
};

fn dec(text: &str) -> Decimal {
    Decimal::parse(text).unwrap()
}

fn max() -> Decimal {
    Decimal::from_i128_with_scale(79_228_162_514_264_337_593_543_950_335, 0)
}

fn split(quantity: &str, price: &str) -> OrderSplit {
    OrderSplit {
        exchange: "TestExchange".to_string(),
        quantity: dec(quantity),
        expected_price: dec(price),
    }
}

fn order(quantity: &str) -> Order {
    Order {
        pair: TradingPair::new("BTC", "USD"),
        side: OrderSide::Buy,
        order_type: OrderType::Market,
        quantity: dec(quantity),
        limit_price: None,
    }
}

fn routing(slippage: Decimal) -> RoutingResult {
    RoutingResult {
        original_order: order("1"),
        splits: vec![split("1", "100")],
        total_quantity: dec("1"),
        average_price: dec("100"),
        estimated_slippage: slippage,
    }
}

fn execution(fees: Decimal) -> ExecutionResult {
    ExecutionResult {
        order_id: "ORDER_1".to_string(),
        exchange: "A".to_string(),
        executed_quantity: dec("1"),
        executed_price: dec("100"),
        fees,
        timestamp: Timestamp { seconds: 1, nanoseconds: 0 },
    }
}

#[test]
fn test_simulate_execution() {
    let split = OrderSplit {
        exchange: "TestExchange".to_string(),
        quantity: dec("1.0"),
        expected_price: dec("50000.0"),
    };

    let result = simulate_execution(&split);
    assert_eq!(result.exchange, "TestExchange");
    assert_eq!(result.executed_quantity, dec("1.0"));
    assert!(result.executed_price > dec("50000.0"));
}

#[test]
fn simulation_at_a_given_time() {
    let stamp = Timestamp { seconds: 1_700_000_000, nanoseconds: 250 };
    let result = execute_at(&split("2.0", "50000.0"), dec("0.0001"), 1_700_000_000, stamp).unwrap();
    assert_eq!(result.order_id, "ORDER_1700000000");
    assert_eq!(result.exchange, "TestExchange");
    assert_eq!(result.executed_quantity, dec("2.0"));
    // 50000 * 1.0001
    assert_eq!(result.executed_price, dec("50005"));
    // 2 * 50005 * 0.001
    assert_eq!(result.fees, dec("100.01"));
    assert_eq!(result.timestamp, stamp);
    let early = execute_at(&split("1", "1"), dec("0"), -5, stamp).unwrap();
    assert_eq!(early.order_id, "ORDER_-5");
    assert_eq!(early.executed_price, dec("1"));
    assert_eq!(early.fees, dec("0.001"));
}

#[test]
fn simulation_without_a_result_is_none() {
    let stamp = Timestamp { seconds: 0, nanoseconds: 0 };
    let dear = OrderSplit { exchange: "A".to_string(), quantity: dec("1"), expected_price: max() };
    assert!(execute_at(&dear, dec("0.0001"), 0, stamp).is_none());
    assert!(execute_at(&split("1", "1"), max(), 0, stamp).is_none());
    let much = OrderSplit { exchange: "A".to_string(), quantity: max(), expected_price: dec("2") };
    assert!(execute_at(&much, dec("0"), 0, stamp).is_none());
    assert!(try_simulate_execution(&dear).is_none());
    assert!(try_simulate_with_slippage(&dear, dec("1")).is_none());
    assert!(try_simulate_execution(&split("1", "1")).is_some());
}

#[test]
fn simulation_reads_the_clock() {
    let result = simulate_execution(&split("1.0", "50000.0"));
    assert!(result.order_id.starts_with("ORDER_"));
    let seconds: i64 = result.order_id["ORDER_".len()..].parse().unwrap();
    // the identifier is taken just before the time stamp
    assert!(result.timestamp.seconds - seconds >= 0);
    assert!(result.timestamp.seconds - seconds <= 1);
    assert!(seconds > 1_600_000_000);
    assert!(result.timestamp.nanoseconds < 2_000_000_000);
    assert_eq!(result.executed_price, dec("50005"));
    assert_eq!(result.fees, dec("50.005"));
}

#[test]
fn slippage_is_given_in_basis_points() {
    let result = simulate_with_slippage(&split("2.0", "50000.0"), dec("10"));
    // 10 basis points are 0.1%
    assert_eq!(result.executed_price, dec("50050"));
    assert_eq!(result.fees, dec("100.1"));
    assert_eq!(result.executed_quantity, dec("2.0"));
    assert_eq!(result.exchange, "TestExchange");
    let result = try_simulate_with_slippage(&split("2.0", "50000.0"), dec("-10")).unwrap();
    assert_eq!(result.executed_price, dec("49950"));
}

#[test]
fn backtest_without_runs() {
    let engine = BacktestEngine::new();
    assert_eq!(engine.average_slippage(), dec("0"));
    assert_eq!(engine.total_fees(), dec("0"));
    assert_eq!(
        engine.summary(),
        "Backtest Summary:\n\
         - Total Orders: 0\n\
         - Average Slippage: 0.0000%\n\
         - Total Fees: 0.00\n\
         - Total Executions: 0"
    );
}

#[test]
fn backtest_sums_up_its_runs() {
    let mut engine = BacktestEngine::new();
    engine.add_order(order("1"));
    engine.add_order(order("2"));
    engine.add_order(order("3"));
    engine.add_result(routing(dec("0.1")), vec![execution(dec("0.5")), execution(dec("0.25"))]);
    engine.add_result(routing(dec("0.4")), vec![]);
    engine.add_result(routing(dec("0.25")), vec![execution(dec("1.125"))]);
    assert_eq!(engine.average_slippage(), dec("0.25"));
    assert_eq!(engine.try_average_slippage(), Some(dec("0.25")));
    assert_eq!(engine.total_fees(), dec("1.875"));
    assert_eq!(engine.try_total_fees(), Some(dec("1.875")));
    let summary = engine.summary();
    assert_eq!(
        summary,
        "Backtest Summary:\n\
         - Total Orders: 3\n\
         - Average Slippage: 0.2500%\n\
         - Total Fees: 1.87\n\
         - Total Executions: 3"
    );
    assert_eq!(engine.try_summary(), Some(summary));
}

#[test]
fn backtest_figures_without_a_result_are_none() {
    let mut engine = BacktestEngine::new();
    engine.add_result(routing(max()), vec![execution(max())]);
    assert_eq!(engine.try_average_slippage(), Some(max()));
    assert_eq!(engine.try_total_fees(), Some(max()));
    engine.add_result(routing(dec("1")), vec![execution(dec("0"))]);
    assert_eq!(engine.try_average_slippage(), None);
    assert_eq!(engine.try_total_fees(), Some(max()));
    assert_eq!(engine.try_summary(), None);
    engine.add_result(routing(dec("-1")), vec![execution(dec("1"))]);
    assert_eq!(engine.try_total_fees(), None);
}

#[test]
fn summary_with_a_figure_too_long_to_print_is_none() {
    let mut engine = BacktestEngine::new();
    engine.add_result(routing(dec("1000000000000000000000000000")), vec![execution(dec("1"))]);
    assert_eq!(engine.try_average_slippage(), Some(dec("1000000000000000000000000000")));
    assert_eq!(engine.try_summary(), None);
}
