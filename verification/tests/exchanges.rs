use smart_order_router::decimal::Decimal;
use smart_order_router::exchanges::binance::{
    base_url, depth_url, fallback_liquidity, format_symbol, liquidity_from_order_book, BookError,
};
use smart_order_router::exchanges::{binance, coinbase, kraken};
use smart_order_router::types::TradingPair;

fn dec(text: &str) -> Decimal {
    Decimal::parse(text).unwrap()
}

fn level(price: &str, size: &str) -> (String, String) {
    (price.to_string(), size.to_string())
}

#[test]
fn symbol_is_in_upper_case() {
    assert_eq!(format_symbol(&TradingPair::new("btc", "usd")), "BTCUSD");
    assert_eq!(format_symbol(&TradingPair::new("Eth", "USDT")), "ETHUSDT");
}

#[test]
fn order_book_address() {
    assert_eq!(
        depth_url(base_url(), "BTCUSD"),
        "https://api.binance.com/api/v3/depth?symbol=BTCUSD&limit=10"
    );
}

#[test]
fn quote_is_the_top_of_the_book() {
    let pair = TradingPair::new("BTC", "USD");
    let bids = vec![level("49990.5", "0.75"), level("49980", "3")];
    let asks = vec![level("50010.25", "1.5"), level("50020", "2")];
    let quote = liquidity_from_order_book(&pair, &bids, &asks).unwrap();
    assert_eq!(quote.exchange, "Binance");
    assert_eq!(quote.pair.base, "BTC");
    assert_eq!(quote.pair.quote, "USD");
    assert_eq!(quote.bid_price, dec("49990.5"));
    assert_eq!(quote.bid_quantity, dec("0.75"));
    assert_eq!(quote.ask_price, dec("50010.25"));
    assert_eq!(quote.ask_quantity, dec("1.5"));
    assert!(quote.is_valid());
}

#[test]
fn book_without_a_side_or_a_number_gives_no_quote() {
    let pair = TradingPair::new("BTC", "USD");
    let good = vec![level("1", "1")];
    let none: Vec<(String, String)> = Vec::new();
    assert_eq!(liquidity_from_order_book(&pair, &none, &good).unwrap_err(), BookError::NoBids);
    assert_eq!(liquidity_from_order_book(&pair, &none, &none).unwrap_err(), BookError::NoBids);
    assert_eq!(liquidity_from_order_book(&pair, &good, &none).unwrap_err(), BookError::NoAsks);
    for bad in [level("x", "1"), level("1", "")] {
        let bad = vec![bad];
        assert_eq!(
            liquidity_from_order_book(&pair, &bad, &good).unwrap_err(),
            BookError::InvalidNumber
        );
        assert_eq!(
            liquidity_from_order_book(&pair, &good, &bad).unwrap_err(),
            BookError::InvalidNumber
        );
    }
    assert_eq!(BookError::NoBids.message(), "No bids available");
    assert_eq!(BookError::NoAsks.message(), "No asks available");
    assert_eq!(BookError::InvalidNumber.message(), "Invalid decimal");
}

#[test]
fn fixed_quotes_of_the_venues() {
    let pair = TradingPair::new("BTC", "USD");
    let b = fallback_liquidity(&pair);
    assert_eq!(b.exchange, binance::name());
    assert_eq!(
        (b.bid_price, b.bid_quantity, b.ask_price, b.ask_quantity),
        (dec("50000.0"), dec("1.5"), dec("50050.0"), dec("2.0"))
    );
    let c = coinbase::mock_liquidity(&pair);
    assert_eq!(c.exchange, "Coinbase");
    assert_eq!(coinbase::name(), "Coinbase");
    assert_eq!(
        (c.bid_price, c.bid_quantity, c.ask_price, c.ask_quantity),
        (dec("49950.0"), dec("1.2"), dec("50000.0"), dec("1.8"))
    );
    let k = kraken::mock_liquidity(&pair);
    assert_eq!(k.exchange, "Kraken");
    assert_eq!(kraken::name(), "Kraken");
    assert_eq!(
        (k.bid_price, k.bid_quantity, k.ask_price, k.ask_quantity),
        (dec("49980.0"), dec("2.5"), dec("50030.0"), dec("1.5"))
    );
    assert_eq!(k.pair.base, "BTC");
}
