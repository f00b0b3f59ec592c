//! Smart order routing: splits one order across several venues so that a buy
//! costs as little, and a sell earns as much, as the quoted liquidity allows.
//!
//! The entry point is [`router::route`]: from an order and a snapshot of venue
//! quotes to a routing plan, or to the reason why there is none. Around it
//! stand the even splitters, post-trade analytics, backtest bookkeeping, and
//! what the venue connectors compute.
//!
//! Every executable function in this crate carries a contract that Verus
//! proves. Decimal arithmetic is done by the `rust_decimal` crate: the module
//! [`decimal`] holds the calls into it, whose contracts are taken on trust,
//! and says what is claimed of each.

pub mod analytics;
pub mod backtesting;
pub mod decimal;
pub mod exchanges;
pub mod router;
pub mod text;
pub mod types;

pub use types::{Order, OrderSide, OrderType, RoutingResult, TradingPair};
