//! Orders and the exchange snapshots they are read from. Prices and
//! quantities are whole thousandths.

use vstd::prelude::*;

verus! {

/// An order: `k` 0 ask, 1 bid; `p` price; `q` quantity; `l` location
/// (0 ByBit, 1 Binance).
#[derive(Clone, Copy, Debug, PartialEq, Eq, Structural)]
pub struct Order {
    pub k: u8,
    pub p: u64,
    pub q: u64,
    pub l: u8,
}

/// A ByBit price and quantity pair.
#[derive(Clone, Copy, Debug, PartialEq, Eq, Structural)]
pub struct ByBitOrder {
    pub price: u64,
    pub quantity: u64,
}

/// A Binance price and quantity pair.
#[derive(Clone, Copy, Debug, PartialEq, Eq, Structural)]
pub struct BinanceOrder {
    pub price: u64,
    pub quantity: u64,
}

/// The order that pair (`price`, `quantity`) of side `k` from `location` becomes.
pub open spec fn order_of(k: u8, price: u64, quantity: u64, location: u8) -> Order {
    Order { k, p: price, q: quantity, l: location }
}

/// Binance's best bid and best ask message.
#[allow(non_snake_case)]
#[derive(Clone, Copy, Debug)]
pub struct OrderBookUpdateBinance {
    /// best bid price
    pub b: u64,
    /// best bid quantity
    pub B: u64,
    /// best ask price
    pub a: u64,
    /// best ask quantity
    pub A: u64,
}

impl OrderBookUpdateBinance {
    /// The two orders of the message, from Binance (location 1): the best
    /// bid as a bid (side 1) and the best ask as an ask (side 0).
    pub fn split_update(self) -> (r: (Order, Order))
        ensures
            r.0 == order_of(1, self.b, self.B, 1),
            r.1 == order_of(0, self.a, self.A, 1),
    {
        (Order { k: 1, p: self.b, q: self.B, l: 1 }, Order { k: 0, p: self.a, q: self.A, l: 1 })
    }
}

/// The book part of a ByBit snapshot.
#[derive(Clone, Debug)]
pub struct ByBitData {
    pub s: String,
    pub t: u64,
    pub a: Vec<ByBitOrder>,
    pub b: Vec<ByBitOrder>,
}

/// A ByBit book snapshot.
#[allow(non_snake_case)]
#[derive(Clone, Debug)]
pub struct SnapShotDepthResponseByBit {
    pub retCode: i32,
    pub retMsg: String,
    pub topic: String,
    pub ts: u64,
    pub type_: String,
    pub data: ByBitData,
}

/// A Binance book snapshot.
#[allow(non_snake_case)]
#[derive(Clone, Debug)]
pub struct SnapShotDepthResponseBinance {
    pub lastUpdateId: u64,
    pub bids: Vec<BinanceOrder>,
    pub asks: Vec<BinanceOrder>,
}

/// Turns Binance pairs into orders of side `k` from `location`, in order.
fn binance_orders(items: &Vec<BinanceOrder>, k: u8, location: u8) -> (r: Vec<Order>)
    ensures
        r@ == items@.map_values(|item: BinanceOrder| order_of(k, item.price, item.quantity, location)),
{
    let mut out: Vec<Order> = Vec::new();
    let n = items.len();
    let mut i: usize = 0;
    while i < n
        invariant
            n == items@.len(),
            i <= n,
            out@ == items@.take(i as int).map_values(
                |item: BinanceOrder| order_of(k, item.price, item.quantity, location),
            ),
        decreases n - i,
    {
        let item = items[i];
        out.push(Order { l: location, p: item.price, q: item.quantity, k });
        proof {
            assert(items@.take(i + 1) =~= items@.take(i as int).push(item));
            assert(out@ =~= items@.take(i + 1).map_values(
                |item: BinanceOrder| order_of(k, item.price, item.quantity, location),
            ));
        }
        i = i + 1;
    }
    proof {
        assert(items@.take(n as int) =~= items@);
    }
    out
}

/// Turns ByBit pairs into orders of side `k` from `location`, in order.
fn bybit_orders(items: &Vec<ByBitOrder>, k: u8, location: u8) -> (r: Vec<Order>)
    ensures
        r@ == items@.map_values(|item: ByBitOrder| order_of(k, item.price, item.quantity, location)),
{
    let mut out: Vec<Order> = Vec::new();
    let n = items.len();
    let mut i: usize = 0;
    while i < n
        invariant
            n == items@.len(),
            i <= n,
            out@ == items@.take(i as int).map_values(
                |item: ByBitOrder| order_of(k, item.price, item.quantity, location),
            ),
        decreases n - i,
    {
        let item = items[i];
        out.push(Order { l: location, p: item.price, q: item.quantity, k });
        proof {
            assert(items@.take(i + 1) =~= items@.take(i as int).push(item));
            assert(out@ =~= items@.take(i + 1).map_values(
                |item: ByBitOrder| order_of(k, item.price, item.quantity, location),
            ));
        }
        i = i + 1;
    }
    proof {
        assert(items@.take(n as int) =~= items@);
    }
    out
}

impl SnapShotDepthResponseBinance {
    /// The snapshot's orders from Binance (location 1): its asks as side 0
    /// and its bids as side 1, each in snapshot order.
    pub fn orders(self) -> (r: (Vec<Order>, Vec<Order>))
        ensures
            r.0@ == self.asks@.map_values(|item: BinanceOrder| order_of(0, item.price, item.quantity, 1)),
            r.1@ == self.bids@.map_values(|item: BinanceOrder| order_of(1, item.price, item.quantity, 1)),
    {
        let asks = binance_orders(&self.asks, 0, 1);
        let bids = binance_orders(&self.bids, 1, 1);
        (asks, bids)
    }
}

impl SnapShotDepthResponseByBit {
    /// The snapshot's orders from ByBit (location 0): its asks as side 0
    /// and its bids as side 1, each in snapshot order.
    pub fn orders(&self) -> (r: (Vec<Order>, Vec<Order>))
        ensures
            r.0@ == self.data.a@.map_values(|item: ByBitOrder| order_of(0, item.price, item.quantity, 0)),
            r.1@ == self.data.b@.map_values(|item: ByBitOrder| order_of(1, item.price, item.quantity, 0)),
    {
        let asks = bybit_orders(&self.data.a, 0, 0);
        let bids = bybit_orders(&self.data.b, 1, 0);
        (asks, bids)
    }
}

/// A raw Binance book update: price and quantity pairs as text.
#[allow(non_snake_case)]
#[derive(Clone, Debug)]
pub struct MarketUpdate {
    lastUpdateId: u64,
    bids: Vec<[String; 2]>,
    asks: Vec<[String; 2]>,
}

} // verus!
