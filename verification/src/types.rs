//! The data that flows through the router: instruments, orders, venue quotes,
//! fills and routing plans, each with the mathematical view that contracts
//! speak of.

use vstd::prelude::*;
use vstd::string::StringExecFns;
use crate::decimal::Decimal;

verus! {

/// A trading pair such as BTC/USD.
#[derive(Debug, PartialEq, Eq, Hash)]
pub struct TradingPair {
    pub base: String,
    pub quote: String,
}

/// What a [`TradingPair`] is: its two symbols as character sequences.
pub struct TradingPairView {
    pub base: Seq<char>,
    pub quote: Seq<char>,
}

impl View for TradingPair {
    type V = TradingPairView;

    open spec fn view(&self) -> TradingPairView {
        TradingPairView { base: self.base@, quote: self.quote@ }
    }
}

impl TradingPairView {
    /// The pair as text: base symbol, a slash, quote symbol.
    pub open spec fn text(self) -> Seq<char> {
        self.base + seq!['/'] + self.quote
    }
}

impl TradingPair {
    /// The pair of the two symbols.
    pub fn new(base: &str, quote: &str) -> (r: TradingPair)
        ensures
            r@.base == base@,
            r@.quote == quote@,
    {
        TradingPair { base: String::from_str(base), quote: String::from_str(quote) }
    }

    /// The pair as text, for example `BTC/USD`.
    pub fn to_text(&self) -> (r: String)
        ensures
            r@ == self@.text(),
    {
        let mut r = self.base.clone();
        proof {
            reveal_strlit("/");
            assert("/"@ =~= seq!['/']);
        }
        r.append("/");
        r.append(self.quote.as_str());
        r
    }
}

impl Clone for TradingPair {
    fn clone(&self) -> (r: TradingPair)
        ensures
            r@ == self@,
    {
        TradingPair { base: self.base.clone(), quote: self.quote.clone() }
    }
}

/// Order side: buy or sell.
#[derive(Debug, Clone, Copy, PartialEq, Eq, Structural)]
pub enum OrderSide {
    Buy,
    Sell,
}

/// Order type. Only market semantics are implemented: a limit order is
/// accepted, and its limit price does not bound the allocation.
#[derive(Debug, Clone, Copy, PartialEq, Eq, Structural)]
pub enum OrderType {
    Market,
    Limit,
}

/// An order to be routed.
#[derive(Debug)]
pub struct Order {
    pub pair: TradingPair,
    pub side: OrderSide,
    pub order_type: OrderType,
    pub quantity: Decimal,
    pub limit_price: Option<Decimal>,
}

/// What an [`Order`] is.
pub struct OrderView {
    pub pair: TradingPairView,
    pub side: OrderSide,
    pub order_type: OrderType,
    pub quantity: Decimal,
    pub limit_price: Option<Decimal>,
}

impl View for Order {
    type V = OrderView;

    open spec fn view(&self) -> OrderView {
        OrderView {
            pair: self.pair@,
            side: self.side,
            order_type: self.order_type,
            quantity: self.quantity,
            limit_price: self.limit_price,
        }
    }
}

impl Clone for Order {
    fn clone(&self) -> (r: Order)
        ensures
            r@ == self@,
    {
        Order {
            pair: self.pair.clone(),
            side: self.side,
            order_type: self.order_type,
            quantity: self.quantity,
            limit_price: self.limit_price,
        }
    }
}

/// The liquidity that one venue quotes for a pair: the best bid and ask, each
/// with the size available at that price.
#[derive(Debug)]
pub struct Liquidity {
    pub exchange: String,
    pub pair: TradingPair,
    pub bid_price: Decimal,
    pub bid_quantity: Decimal,
    pub ask_price: Decimal,
    pub ask_quantity: Decimal,
}

/// What a [`Liquidity`] is.
pub struct LiquidityView {
    pub exchange: Seq<char>,
    pub pair: TradingPairView,
    pub bid_price: Decimal,
    pub bid_quantity: Decimal,
    pub ask_price: Decimal,
    pub ask_quantity: Decimal,
}

impl View for Liquidity {
    type V = LiquidityView;

    open spec fn view(&self) -> LiquidityView {
        LiquidityView {
            exchange: self.exchange@,
            pair: self.pair@,
            bid_price: self.bid_price,
            bid_quantity: self.bid_quantity,
            ask_price: self.ask_price,
            ask_quantity: self.ask_quantity,
        }
    }
}

impl LiquidityView {
    /// The price at which the venue trades with an order of the given side:
    /// its ask for a buy, its bid for a sell.
    pub open spec fn price(self, side: OrderSide) -> Decimal {
        match side {
            OrderSide::Buy => self.ask_price,
            OrderSide::Sell => self.bid_price,
        }
    }

    /// The size the venue offers to an order of the given side.
    pub open spec fn size(self, side: OrderSide) -> Decimal {
        match side {
            OrderSide::Buy => self.ask_quantity,
            OrderSide::Sell => self.bid_quantity,
        }
    }

    /// Prices and sizes are well-formed decimals, and none is negative.
    pub open spec fn valid(self) -> bool {
        &&& self.bid_price.wf() && self.bid_price.is_non_negative()
        &&& self.bid_quantity.wf() && self.bid_quantity.is_non_negative()
        &&& self.ask_price.wf() && self.ask_price.is_non_negative()
        &&& self.ask_quantity.wf() && self.ask_quantity.is_non_negative()
    }
}

impl Liquidity {
    /// The price at which the venue trades with an order of the given side.
    pub fn price(&self, side: OrderSide) -> (r: Decimal)
        ensures
            r == self@.price(side),
    {
        match side {
            OrderSide::Buy => self.ask_price,
            OrderSide::Sell => self.bid_price,
        }
    }

    /// The size the venue offers to an order of the given side.
    pub fn size(&self, side: OrderSide) -> (r: Decimal)
        ensures
            r == self@.size(side),
    {
        match side {
            OrderSide::Buy => self.ask_quantity,
            OrderSide::Sell => self.bid_quantity,
        }
    }

    /// Whether no price and no size is negative.
    pub fn is_valid(&self) -> (r: bool)
        ensures
            r == self@.valid(),
    {
        let bid_price = self.bid_price.is_negative();
        let bid_quantity = self.bid_quantity.is_negative();
        let ask_price = self.ask_price.is_negative();
        let ask_quantity = self.ask_quantity.is_negative();
        !bid_price && !bid_quantity && !ask_price && !ask_quantity
    }
}

impl Clone for Liquidity {
    fn clone(&self) -> (r: Liquidity)
        ensures
            r@ == self@,
    {
        Liquidity {
            exchange: self.exchange.clone(),
            pair: self.pair.clone(),
            bid_price: self.bid_price,
            bid_quantity: self.bid_quantity,
            ask_price: self.ask_price,
            ask_quantity: self.ask_quantity,
        }
    }
}

/// The views of a snapshot's quotes, in the snapshot's order.
pub open spec fn liquidity_views(snapshot: Seq<Liquidity>) -> Seq<LiquidityView> {
    snapshot.map_values(|l: Liquidity| l@)
}

/// The part of an order that goes to one venue.
#[derive(Debug)]
pub struct OrderSplit {
    pub exchange: String,
    pub quantity: Decimal,
    pub expected_price: Decimal,
}

/// What an [`OrderSplit`] is.
pub struct OrderSplitView {
    pub exchange: Seq<char>,
    pub quantity: Decimal,
    pub expected_price: Decimal,
}

impl View for OrderSplit {
    type V = OrderSplitView;

    open spec fn view(&self) -> OrderSplitView {
        OrderSplitView {
            exchange: self.exchange@,
            quantity: self.quantity,
            expected_price: self.expected_price,
        }
    }
}

impl Clone for OrderSplit {
    fn clone(&self) -> (r: OrderSplit)
        ensures
            r@ == self@,
    {
        OrderSplit {
            exchange: self.exchange.clone(),
            quantity: self.quantity,
            expected_price: self.expected_price,
        }
    }
}

/// The views of a list of splits, in the list's order.
pub open spec fn split_views(splits: Seq<OrderSplit>) -> Seq<OrderSplitView> {
    splits.map_values(|s: OrderSplit| s@)
}

/// A routing plan: the splits in the order in which they were decided, the
/// blended price over all of them, and the slippage against the best single
/// price in the snapshot.
#[derive(Debug)]
pub struct RoutingResult {
    pub original_order: Order,
    pub splits: Vec<OrderSplit>,
    pub total_quantity: Decimal,
    pub average_price: Decimal,
    pub estimated_slippage: Decimal,
}

/// What a [`RoutingResult`] is.
pub struct RoutingResultView {
    pub original_order: OrderView,
    pub splits: Seq<OrderSplitView>,
    pub total_quantity: Decimal,
    pub average_price: Decimal,
    pub estimated_slippage: Decimal,
}

impl View for RoutingResult {
    type V = RoutingResultView;

    open spec fn view(&self) -> RoutingResultView {
        RoutingResultView {
            original_order: self.original_order@,
            splits: split_views(self.splits@),
            total_quantity: self.total_quantity,
            average_price: self.average_price,
            estimated_slippage: self.estimated_slippage,
        }
    }
}

impl Clone for RoutingResult {
    fn clone(&self) -> (r: RoutingResult)
        ensures
            r@ == self@,
    {
        let mut splits: Vec<OrderSplit> = Vec::new();
        let mut i: usize = 0;
        while i < self.splits.len()
            invariant
                i <= self.splits@.len(),
                splits@.len() == i,
                forall|j: int| 0 <= j < i ==> (#[trigger] splits@[j])@ == self.splits@[j]@,
            decreases self.splits@.len() - i,
        {
            splits.push(self.splits[i].clone());
            i = i + 1;
        }
        assert(split_views(splits@) =~= split_views(self.splits@));
        RoutingResult {
            original_order: self.original_order.clone(),
            splits,
            total_quantity: self.total_quantity,
            average_price: self.average_price,
            estimated_slippage: self.estimated_slippage,
        }
    }
}

/// A point in time: whole seconds since the Unix epoch and the nanoseconds
/// within that second.
#[derive(Debug, Clone, Copy, PartialEq, Eq, Structural)]
pub struct Timestamp {
    pub seconds: i64,
    pub nanoseconds: u32,
}

/// What became of one split at its venue.
#[derive(Debug)]
pub struct ExecutionResult {
    pub order_id: String,
    pub exchange: String,
    pub executed_quantity: Decimal,
    pub executed_price: Decimal,
    pub fees: Decimal,
    pub timestamp: Timestamp,
}

/// What an [`ExecutionResult`] is.
pub struct ExecutionResultView {
    pub order_id: Seq<char>,
    pub exchange: Seq<char>,
    pub executed_quantity: Decimal,
    pub executed_price: Decimal,
    pub fees: Decimal,
    pub timestamp: Timestamp,
}

impl View for ExecutionResult {
    type V = ExecutionResultView;

    open spec fn view(&self) -> ExecutionResultView {
        ExecutionResultView {
            order_id: self.order_id@,
            exchange: self.exchange@,
            executed_quantity: self.executed_quantity,
            executed_price: self.executed_price,
            fees: self.fees,
            timestamp: self.timestamp,
        }
    }
}

impl Clone for ExecutionResult {
    fn clone(&self) -> (r: ExecutionResult)
        ensures
            r@ == self@,
    {
        ExecutionResult {
            order_id: self.order_id.clone(),
            exchange: self.exchange.clone(),
            executed_quantity: self.executed_quantity,
            executed_price: self.executed_price,
            fees: self.fees,
            timestamp: self.timestamp,
        }
    }
}

/// The views of a list of execution results, in the list's order.
pub open spec fn execution_views(results: Seq<ExecutionResult>) -> Seq<ExecutionResultView> {
    results.map_values(|e: ExecutionResult| e@)
}

} // verus!
