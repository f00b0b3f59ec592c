//! Kraken: not wired up, it answers with a fixed quote.

use vstd::prelude::*;
use vstd::string::StringExecFns;
use crate::decimal::Decimal;
use crate::types::{Liquidity, LiquidityView, TradingPair, TradingPairView};

verus! {

/// The venue's name.
pub fn name() -> (r: &'static str)
    ensures
        r@ == "Kraken"@,
{
    "Kraken"
}

/// The venue's fixed quote: bid 49980.0 for 2.5, ask 50030.0 for 1.5.
pub open spec fn fixed_quote(pair: TradingPairView) -> LiquidityView {
    LiquidityView {
        exchange: "Kraken"@,
        pair,
        bid_price: Decimal::from_parts(499800, 1),
        bid_quantity: Decimal::from_parts(25, 1),
        ask_price: Decimal::from_parts(500300, 1),
        ask_quantity: Decimal::from_parts(15, 1),
    }
}

/// The venue's quote for a pair.
pub fn mock_liquidity(pair: &TradingPair) -> (r: Liquidity)
    ensures
        r@ == fixed_quote(pair@),
{
    Liquidity {
        exchange: String::from_str("Kraken"),
        pair: pair.clone(),
        bid_price: Decimal::new(499800, 1),
        bid_quantity: Decimal::new(25, 1),
        ask_price: Decimal::new(500300, 1),
        ask_quantity: Decimal::new(15, 1),
    }
}

} // verus!
