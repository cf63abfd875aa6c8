//! The market maker that consumes quotes, and the order vocabulary it uses.

use vstd::prelude::*;

verus! {

/// The strategy that streams quotes from the quote server.
pub struct MarketMaker {
    agent: String,
}

impl MarketMaker {
    /// The name the market maker introduces itself with.
    pub closed spec fn agent_name(&self) -> Seq<char> {
        self.agent@
    }

    /// A market maker named `market-maker-strategy-tbd`.
    pub fn new() -> (r: Self)
        ensures
            r.agent_name() == "market-maker-strategy-tbd"@,
    {
        MarketMaker { agent: String::from_str("market-maker-strategy-tbd") }
    }

    /// The name the market maker introduces itself with.
    pub fn agent(&self) -> (r: &str)
        ensures
            r@ == self.agent_name(),
    {
        self.agent.as_str()
    }
}

/// How long an order stays live.
#[derive(Clone, Copy, Debug, PartialEq, Eq, Structural)]
pub enum OrderCondition {
    Day,
    GoodTillCancel,
    Immediate,
    FillOrKill,
    GoodTillCrossing,
    GoodTillDate,
    AtTheClose,
    GoodThroughCrossing,
    AtCrossing,
}

/// How an order is priced.
#[derive(Clone, Copy, Debug, PartialEq, Eq, Structural)]
pub enum OrderType {
    Market,
    Limit,
    StopLoss,
    StopLimit,
    MarketIfTouched,
    Pegged,
}

} // verus!
