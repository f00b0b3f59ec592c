//! Binance: the address of its order book, and the quote that an order book
//! stands for.

use vstd::prelude::*;
use vstd::string::StringExecFns;
use crate::decimal::{Decimal, decimal_parse};
use crate::text::{to_uppercase, uppercase};
use crate::types::{Liquidity, LiquidityView, TradingPair, TradingPairView};

verus! {

/// Why an order book gives no quote.
#[derive(Debug, Clone, Copy, PartialEq, Eq, Structural)]
pub enum BookError {
    /// The book holds no bid.
    NoBids,
    /// The book holds no ask.
    NoAsks,
    /// A price or a size of the best bid or ask is no decimal number.
    InvalidNumber,
}

impl BookError {
    /// The error in words.
    pub fn message(&self) -> (r: &'static str)
        ensures
            r@ == match *self {
                BookError::NoBids => "No bids available"@,
                BookError::NoAsks => "No asks available"@,
                BookError::InvalidNumber => "Invalid decimal"@,
            },
    {
        match self {
            BookError::NoBids => "No bids available",
            BookError::NoAsks => "No asks available",
            BookError::InvalidNumber => "Invalid decimal",
        }
    }
}

/// The venue's name.
pub fn name() -> (r: &'static str)
    ensures
        r@ == "Binance"@,
{
    "Binance"
}

/// The address of the venue's interface.
pub fn base_url() -> (r: &'static str)
    ensures
        r@ == "https://api.binance.com"@,
{
    "https://api.binance.com"
}

/// The symbol under which the venue lists a pair: both symbols in upper
/// case, one behind the other.
pub open spec fn symbol_text(pair: TradingPairView) -> Seq<char> {
    uppercase(pair.base) + uppercase(pair.quote)
}

/// The symbol under which the venue lists a pair, `BTCUSD` for BTC/USD.
pub fn format_symbol(pair: &TradingPair) -> (r: String)
    ensures
        r@ == symbol_text(pair@),
{
    let mut symbol = to_uppercase(pair.base.as_str());
    symbol.append(to_uppercase(pair.quote.as_str()).as_str());
    symbol
}

/// The address of the order book for a symbol, ten levels deep.
pub open spec fn depth_url_text(base_url: Seq<char>, symbol: Seq<char>) -> Seq<char> {
    base_url + "/api/v3/depth?symbol="@ + symbol + "&limit=10"@
}

/// The address of the order book for a symbol, ten levels deep.
pub fn depth_url(base_url: &str, symbol: &str) -> (r: String)
    ensures
        r@ == depth_url_text(base_url@, symbol@),
{
    let mut url = String::from_str(base_url);
    url.append("/api/v3/depth?symbol=");
    url.append(symbol);
    url.append("&limit=10");
    url
}

/// The quote that stands in for the order book where the venue answers with
/// an error: bid 50000.0 for 1.5, ask 50050.0 for 2.0.
pub open spec fn fallback_quote(pair: TradingPairView) -> LiquidityView {
    LiquidityView {
        exchange: "Binance"@,
        pair,
        bid_price: Decimal::from_parts(500000, 1),
        bid_quantity: Decimal::from_parts(15, 1),
        ask_price: Decimal::from_parts(500500, 1),
        ask_quantity: Decimal::from_parts(20, 1),
    }
}

/// The quote that stands in for the order book where the venue answers with
/// an error.
pub fn fallback_liquidity(pair: &TradingPair) -> (r: Liquidity)
    ensures
        r@ == fallback_quote(pair@),
{
    Liquidity {
        exchange: String::from_str("Binance"),
        pair: pair.clone(),
        bid_price: Decimal::new(500000, 1),
        bid_quantity: Decimal::new(15, 1),
        ask_price: Decimal::new(500500, 1),
        ask_quantity: Decimal::new(20, 1),
    }
}

/// One level of an order book as the venue sends it: price and size as text.
pub open spec fn level_view(level: (String, String)) -> (Seq<char>, Seq<char>) {
    (level.0@, level.1@)
}

/// The levels of one side of an order book, best first.
pub open spec fn level_views(levels: Seq<(String, String)>) -> Seq<(Seq<char>, Seq<char>)> {
    levels.map_values(|level: (String, String)| level_view(level))
}

/// The quote that an order book stands for: its best bid and best ask, each
/// the first level of its side. A side without a level is an error, bids
/// first; so is a price or size that is no decimal number.
pub open spec fn book_quote(
    pair: TradingPairView,
    bids: Seq<(Seq<char>, Seq<char>)>,
    asks: Seq<(Seq<char>, Seq<char>)>,
) -> Result<LiquidityView, BookError> {
    if bids.len() == 0 {
        Err(BookError::NoBids)
    } else if asks.len() == 0 {
        Err(BookError::NoAsks)
    } else {
        match (
            decimal_parse(bids[0].0),
            decimal_parse(bids[0].1),
            decimal_parse(asks[0].0),
            decimal_parse(asks[0].1),
        ) {
            (Some(bid_price), Some(bid_quantity), Some(ask_price), Some(ask_quantity)) => Ok(
                LiquidityView {
                    exchange: "Binance"@,
                    pair,
                    bid_price,
                    bid_quantity,
                    ask_price,
                    ask_quantity,
                },
            ),
            _ => Err(BookError::InvalidNumber),
        }
    }
}

/// The view of a quote or the error in its place.
pub open spec fn quote_view(r: Result<Liquidity, BookError>) -> Result<LiquidityView, BookError> {
    match r {
        Ok(quote) => Ok(quote@),
        Err(e) => Err(e),
    }
}

/// Reads the venue's quote for a pair from an order book.
pub fn liquidity_from_order_book(
    pair: &TradingPair,
    bids: &Vec<(String, String)>,
    asks: &Vec<(String, String)>,
) -> (r: Result<Liquidity, BookError>)
    ensures
        quote_view(r) == book_quote(pair@, level_views(bids@), level_views(asks@)),
{
    if bids.len() == 0 {
        return Err(BookError::NoBids);
    }
    if asks.len() == 0 {
        return Err(BookError::NoAsks);
    }
    assert(level_views(bids@)[0] == level_view(bids@[0]));
    assert(level_views(asks@)[0] == level_view(asks@[0]));
    let bid_price = match Decimal::parse(bids[0].0.as_str()) {
        Some(d) => d,
        None => {
            return Err(BookError::InvalidNumber);
        },
    };
    let bid_quantity = match Decimal::parse(bids[0].1.as_str()) {
        Some(d) => d,
        None => {
            return Err(BookError::InvalidNumber);
        },
    };
    let ask_price = match Decimal::parse(asks[0].0.as_str()) {
        Some(d) => d,
        None => {
            return Err(BookError::InvalidNumber);
        },
    };
    let ask_quantity = match Decimal::parse(asks[0].1.as_str()) {
        Some(d) => d,
        None => {
            return Err(BookError::InvalidNumber);
        },
    };
    Ok(
        Liquidity {
            exchange: String::from_str("Binance"),
            pair: pair.clone(),
            bid_price,
            bid_quantity,
            ask_price,
            ask_quantity,
        },
    )
}

} // verus!
