//! Exchange messages and how they turn into depth updates. Prices and
//! quantities are whole thousandths, as in `objects`.

use crate::objects::DepthUpdate;
use vstd::prelude::*;

verus! {

/// One price and quantity pair of a Binance book message.
#[derive(Clone, Copy, Debug, PartialEq, Eq, Structural)]
pub struct BinanceDepthUpdate {
    pub price: u64,
    pub quantity: u64,
}

impl Default for BinanceDepthUpdate {
    fn default() -> (d: Self)
        ensures
            d == (BinanceDepthUpdate { price: 0, quantity: 0 }),
    {
        BinanceDepthUpdate { price: 0, quantity: 0 }
    }
}

/// One price and quantity pair of a ByBit book message.
#[derive(Clone, Copy, Debug, PartialEq, Eq, Structural)]
pub struct WSOrderBookUpdateByBit {
    pub price: u64,
    pub quantity: u64,
}

/// The depth update that pair (`price`, `quantity`) of side `k` from
/// `location` becomes.
pub open spec fn depth_of(k: u8, price: u64, quantity: u64, location: u8) -> DepthUpdate {
    DepthUpdate { k, p: price, q: quantity, l: location }
}

/// Turns Binance pairs into depth updates of side `k` from `location`, in order.
pub fn binance_side(updates: &Vec<BinanceDepthUpdate>, k: u8, location: u8) -> (r: Vec<DepthUpdate>)
    ensures
        r@.len() == updates@.len(),
        forall|i: int|
            0 <= i < updates@.len() ==> r@[i] == depth_of(
                k,
                #[trigger] updates@[i].price,
                updates@[i].quantity,
                location,
            ),
{
    let mut out: Vec<DepthUpdate> = Vec::new();
    let n = updates.len();
    let mut i: usize = 0;
    while i < n
        invariant
            n == updates@.len(),
            i <= n,
            out@.len() == i,
            forall|j: int|
                0 <= j < i ==> out@[j] == depth_of(
                    k,
                    #[trigger] updates@[j].price,
                    updates@[j].quantity,
                    location,
                ),
        decreases n - i,
    {
        let u = updates[i];
        out.push(DepthUpdate { k, p: u.price, q: u.quantity, l: location });
        i = i + 1;
    }
    out
}

/// Turns ByBit pairs into depth updates of side `k` from `location`, in order.
pub fn bybit_side(updates: &Vec<WSOrderBookUpdateByBit>, k: u8, location: u8) -> (r: Vec<
    DepthUpdate,
>)
    ensures
        r@.len() == updates@.len(),
        forall|i: int|
            0 <= i < updates@.len() ==> r@[i] == depth_of(
                k,
                #[trigger] updates@[i].price,
                updates@[i].quantity,
                location,
            ),
{
    let mut out: Vec<DepthUpdate> = Vec::new();
    let n = updates.len();
    let mut i: usize = 0;
    while i < n
        invariant
            n == updates@.len(),
            i <= n,
            out@.len() == i,
            forall|j: int|
                0 <= j < i ==> out@[j] == depth_of(
                    k,
                    #[trigger] updates@[j].price,
                    updates@[j].quantity,
                    location,
                ),
        decreases n - i,
    {
        let u = updates[i];
        out.push(DepthUpdate { k, p: u.price, q: u.quantity, l: location });
        i = i + 1;
    }
    out
}

/// Binance's best bid and best ask message.
#[allow(non_snake_case)]
#[derive(Clone, Copy, Debug)]
pub struct WSOrderBookUpdateBinance {
    /// best bid price
    pub b: u64,
    /// best bid quantity
    pub B: u64,
    /// best ask price
    pub a: u64,
    /// best ask quantity
    pub A: u64,
}

impl WSOrderBookUpdateBinance {
    /// The two depth updates of the message, from location 1: the best bid
    /// as a bid (side 1) and the best ask as an ask (side 0).
    pub fn order(self) -> (r: (DepthUpdate, DepthUpdate))
        ensures
            r.0 == depth_of(1, self.b, self.B, 1),
            r.1 == depth_of(0, self.a, self.A, 1),
    {
        (DepthUpdate { k: 1, p: self.b, q: self.B, l: 1 }, DepthUpdate {
            k: 0,
            p: self.a,
            q: self.A,
            l: 1,
        })
    }
}

/// A Binance depth stream message.
#[allow(non_snake_case)]
#[derive(Clone, Debug)]
pub struct WSDepthUpdateBinance {
    pub e: u64,
    pub E: u64,
    pub s: u64,
    pub U: u64,
    pub u: u64,
    pub b: Vec<BinanceDepthUpdate>,
    pub a: Vec<BinanceDepthUpdate>,
}

impl WSDepthUpdateBinance {
    /// The message's depth updates from `location`: its bids as bids (side 1)
    /// and its asks as asks (side 0), each in message order.
    pub fn depths(self, location: u8) -> (r: (Vec<DepthUpdate>, Vec<DepthUpdate>))
        ensures
            r.0@ == self.b@.map_values(|u: BinanceDepthUpdate| depth_of(1, u.price, u.quantity, location)),
            r.1@ == self.a@.map_values(|u: BinanceDepthUpdate| depth_of(0, u.price, u.quantity, location)),
    {
        let bid_updates = binance_side(&self.b, 1, location);
        let ask_updates = binance_side(&self.a, 0, location);
        proof {
            assert(bid_updates@ =~= self.b@.map_values(
                |u: BinanceDepthUpdate| depth_of(1, u.price, u.quantity, location),
            ));
            assert(ask_updates@ =~= self.a@.map_values(
                |u: BinanceDepthUpdate| depth_of(0, u.price, u.quantity, location),
            ));
        }
        (bid_updates, ask_updates)
    }
}

impl Default for WSDepthUpdateBinance {
    fn default() -> (d: Self)
        ensures
            d.e == 0 && d.E == 0 && d.s == 0 && d.U == 0 && d.u == 0,
            d.b@ == seq![BinanceDepthUpdate { price: 0, quantity: 0 }],
            d.a@ == seq![BinanceDepthUpdate { price: 0, quantity: 0 }],
    {
        let mut b: Vec<BinanceDepthUpdate> = Vec::new();
        b.push(BinanceDepthUpdate { price: 0, quantity: 0 });
        let mut a: Vec<BinanceDepthUpdate> = Vec::new();
        a.push(BinanceDepthUpdate { price: 0, quantity: 0 });
        proof {
            assert(b@ =~= seq![BinanceDepthUpdate { price: 0, quantity: 0 }]);
            assert(a@ =~= seq![BinanceDepthUpdate { price: 0, quantity: 0 }]);
        }
        WSDepthUpdateBinance { e: 0, E: 0, s: 0, U: 0, u: 0, b, a }
    }
}

/// The Binance depth message a stub exchange serves for `depth_updates`: one
/// message whose bids are the updates' prices and quantities, in order, with
/// no asks and every header field 0.
pub fn convert_to_binance(depth_updates: &Vec<DepthUpdate>) -> (r: Vec<WSDepthUpdateBinance>)
    ensures
        r@.len() == 1,
        r@[0].e == 0 && r@[0].E == 0 && r@[0].s == 0 && r@[0].U == 0 && r@[0].u == 0,
        r@[0].a@.len() == 0,
        r@[0].b@.len() == depth_updates@.len(),
        forall|i: int|
            0 <= i < depth_updates@.len() ==> r@[0].b@[i] == (BinanceDepthUpdate {
                price: #[trigger] depth_updates@[i].p,
                quantity: depth_updates@[i].q,
            }),
{
    let mut binance_depth_updates: Vec<BinanceDepthUpdate> = Vec::new();
    let n = depth_updates.len();
    let mut i: usize = 0;
    while i < n
        invariant
            n == depth_updates@.len(),
            i <= n,
            binance_depth_updates@.len() == i,
            forall|j: int|
                0 <= j < i ==> binance_depth_updates@[j] == (BinanceDepthUpdate {
                    price: #[trigger] depth_updates@[j].p,
                    quantity: depth_updates@[j].q,
                }),
        decreases n - i,
    {
        let d = depth_updates[i];
        binance_depth_updates.push(BinanceDepthUpdate { price: d.p, quantity: d.q });
        i = i + 1;
    }
    let message = WSDepthUpdateBinance {
        e: 0,
        E: 0,
        s: 0,
        U: 0,
        u: 0,
        b: binance_depth_updates,
        a: Vec::new(),
    };
    let mut out: Vec<WSDepthUpdateBinance> = Vec::new();
    out.push(message);
    out
}

/// A Binance book snapshot, as served over HTTP.
#[allow(non_snake_case)]
#[derive(Clone, Debug)]
pub struct HTTPSnapShotDepthResponseBinance {
    pub retcode: Option<i32>,
    pub lastUpdateId: u64,
    pub asks: Vec<BinanceDepthUpdate>,
    pub bids: Vec<BinanceDepthUpdate>,
}

impl HTTPSnapShotDepthResponseBinance {
    /// The snapshot's depth updates from `location`: its bids as bids (side 1)
    /// and its asks as asks (side 0), each in snapshot order.
    pub fn depths(self, location: u8) -> (r: (Vec<DepthUpdate>, Vec<DepthUpdate>))
        ensures
            r.0@ == self.bids@.map_values(|u: BinanceDepthUpdate| depth_of(1, u.price, u.quantity, location)),
            r.1@ == self.asks@.map_values(|u: BinanceDepthUpdate| depth_of(0, u.price, u.quantity, location)),
    {
        let bid_updates = binance_side(&self.bids, 1, location);
        let ask_updates = binance_side(&self.asks, 0, location);
        proof {
            assert(bid_updates@ =~= self.bids@.map_values(
                |u: BinanceDepthUpdate| depth_of(1, u.price, u.quantity, location),
            ));
            assert(ask_updates@ =~= self.asks@.map_values(
                |u: BinanceDepthUpdate| depth_of(0, u.price, u.quantity, location),
            ));
        }
        (bid_updates, ask_updates)
    }
}

/// The book part of a ByBit depth stream message.
#[derive(Clone, Debug)]
pub struct Data {
    pub s: String,
    pub b: Vec<WSOrderBookUpdateByBit>,
    pub a: Vec<WSOrderBookUpdateByBit>,
    pub u: u32,
    pub seq: u32,
}

/// A ByBit depth stream message.
#[derive(Clone, Debug)]
pub struct WSDepthUpdateByBit {
    pub topic: String,
    pub type_: String,
    pub ts: u64,
    pub data: Data,
}

impl WSDepthUpdateByBit {
    /// The message's depth updates from `location`: its bids as bids (side 1)
    /// and its asks as asks (side 0), each in message order.
    pub fn depths(self, location: u8) -> (r: (Vec<DepthUpdate>, Vec<DepthUpdate>))
        ensures
            r.0@ == self.data.b@.map_values(|u: WSOrderBookUpdateByBit| depth_of(1, u.price, u.quantity, location)),
            r.1@ == self.data.a@.map_values(|u: WSOrderBookUpdateByBit| depth_of(0, u.price, u.quantity, location)),
    {
        let bid_updates = bybit_side(&self.data.b, 1, location);
        let ask_updates = bybit_side(&self.data.a, 0, location);
        proof {
            assert(bid_updates@ =~= self.data.b@.map_values(
                |u: WSOrderBookUpdateByBit| depth_of(1, u.price, u.quantity, location),
            ));
            assert(ask_updates@ =~= self.data.a@.map_values(
                |u: WSOrderBookUpdateByBit| depth_of(0, u.price, u.quantity, location),
            ));
        }
        (bid_updates, ask_updates)
    }
}

/// The book part of a ByBit snapshot.
#[derive(Clone, Debug)]
pub struct ByBitData {
    pub s: String,
    pub t: u64,
    pub a: Vec<WSOrderBookUpdateByBit>,
    pub b: Vec<WSOrderBookUpdateByBit>,
}

/// A ByBit book snapshot, as served over HTTP.
#[allow(non_snake_case)]
#[derive(Clone, Debug)]
pub struct HTTPSnapShotDepthResponseByBit {
    pub retMsg: Option<String>,
    pub topic: String,
    pub ts: u64,
    pub type_: String,
    pub data: ByBitData,
}

impl HTTPSnapShotDepthResponseByBit {
    /// The snapshot's depth updates from `location`: its bids as bids (side 1)
    /// and its asks as asks (side 0), each in snapshot order.
    pub fn depths(self, location: u8) -> (r: (Vec<DepthUpdate>, Vec<DepthUpdate>))
        ensures
            r.0@ == self.data.b@.map_values(|u: WSOrderBookUpdateByBit| depth_of(1, u.price, u.quantity, location)),
            r.1@ == self.data.a@.map_values(|u: WSOrderBookUpdateByBit| depth_of(0, u.price, u.quantity, location)),
    {
        let bid_updates = bybit_side(&self.data.b, 1, location);
        let ask_updates = bybit_side(&self.data.a, 0, location);
        proof {
            assert(bid_updates@ =~= self.data.b@.map_values(
                |u: WSOrderBookUpdateByBit| depth_of(1, u.price, u.quantity, location),
            ));
            assert(ask_updates@ =~= self.data.a@.map_values(
                |u: WSOrderBookUpdateByBit| depth_of(0, u.price, u.quantity, location),
            ));
        }
        (bid_updates, ask_updates)
    }
}

} // verus!
