//! Coinbase: not wired up, it answers with a fixed quote.

use vstd::prelude::*;
use vstd::string::StringExecFns;
use crate::decimal::Decimal;
use crate::types::{Liquidity, LiquidityView, TradingPair, TradingPairView};

verus! {

/// The venue's name.
pub fn name() -> (r: &'static str)
    ensures
        r@ == "Coinbase"@,
{
    "Coinbase"
}

/// The venue's fixed quote: bid 49950.0 for 1.2, ask 50000.0 for 1.8.
pub open spec fn fixed_quote(pair: TradingPairView) -> LiquidityView {
    LiquidityView {
        exchange: "Coinbase"@,
        pair,
        bid_price: Decimal::from_parts(499500, 1),
        bid_quantity: Decimal::from_parts(12, 1),
        ask_price: Decimal::from_parts(500000, 1),
        ask_quantity: Decimal::from_parts(18, 1),
    }
}

/// The venue's quote for a pair.
pub fn mock_liquidity(pair: &TradingPair) -> (r: Liquidity)
    ensures
        r@ == fixed_quote(pair@),
{
    Liquidity {
        exchange: String::from_str("Coinbase"),
        pair: pair.clone(),
        bid_price: Decimal::new(499500, 1),
        bid_quantity: Decimal::new(12, 1),
        ask_price: Decimal::new(500000, 1),
        ask_quantity: Decimal::new(18, 1),
    }
}

} // verus!
