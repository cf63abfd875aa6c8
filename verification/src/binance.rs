//! Binance book messages in the shape the local depth updates are read
//! from. Prices and quantities are whole thousandths.

use crate::market::{binance_side, depth_of, BinanceDepthUpdate};
use crate::objects::DepthUpdate;
use vstd::prelude::*;

verus! {

/// Binance's best bid and best ask message.
#[allow(non_snake_case)]
#[derive(Clone, Copy, Debug)]
pub struct OrderBookUpdateBinance {
    /// best bid price
    pub b: u64,
    /// best bid quantity
    pub B: u64,
    /// best ask price
    pub a: u64,
    /// best ask quantity
    pub A: u64,
}

impl OrderBookUpdateBinance {
    /// The two depth updates of the message, from location 1: the best bid
    /// as a bid (side 1) and the best ask as an ask (side 0).
    pub fn split_update(self) -> (r: (DepthUpdate, DepthUpdate))
        ensures
            r.0 == depth_of(1, self.b, self.B, 1),
            r.1 == depth_of(0, self.a, self.A, 1),
    {
        (DepthUpdate { k: 1, p: self.b, q: self.B, l: 1 }, DepthUpdate {
            k: 0,
            p: self.a,
            q: self.A,
            l: 1,
        })
    }
}

/// A Binance depth stream message.
#[allow(non_snake_case)]
#[derive(Clone, Debug)]
pub struct OrderBookDepthUpdateBinance {
    pub e: u64,
    pub E: u64,
    pub s: u64,
    pub U: u64,
    pub u: u64,
    pub b: Vec<BinanceDepthUpdate>,
    pub a: Vec<BinanceDepthUpdate>,
}

/// A Binance book snapshot.
#[allow(non_snake_case)]
#[derive(Clone, Debug)]
pub struct HTTPSnapShotDepthResponseBinance {
    pub retcode: Option<i32>,
    pub lastUpdateId: u64,
    pub asks: Vec<BinanceDepthUpdate>,
    pub bids: Vec<BinanceDepthUpdate>,
}

impl HTTPSnapShotDepthResponseBinance {
    /// The snapshot's depth updates from location 1: its asks as side 0 and
    /// its bids as side 1, each in snapshot order.
    pub fn orders(self) -> (r: (Vec<DepthUpdate>, Vec<DepthUpdate>))
        ensures
            r.0@ == self.asks@.map_values(|u: BinanceDepthUpdate| depth_of(0, u.price, u.quantity, 1)),
            r.1@ == self.bids@.map_values(|u: BinanceDepthUpdate| depth_of(1, u.price, u.quantity, 1)),
    {
        let asks = binance_side(&self.asks, 0, 1);
        let bids = binance_side(&self.bids, 1, 1);
        proof {
            assert(asks@ =~= self.asks@.map_values(
                |u: BinanceDepthUpdate| depth_of(0, u.price, u.quantity, 1),
            ));
            assert(bids@ =~= self.bids@.map_values(
                |u: BinanceDepthUpdate| depth_of(1, u.price, u.quantity, 1),
            ));
        }
        (asks, bids)
    }
}

} // verus!
