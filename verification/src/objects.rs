//! Depth updates, deals and quotes, with prices and quantities held as whole
//! thousandths (a price of 2700.63 is held as 2_700_630).

use vstd::prelude::*;

verus! {

/// One change to one price level of one side of the book.
///
/// `k`: 0 ask, 1 bid; `p`: price in thousandths; `q`: quantity in
/// thousandths; `l`: location (the exchange it came from).
#[derive(Clone, Copy, Debug, PartialEq, Eq, Structural)]
pub struct DepthUpdate {
    pub k: u8,
    pub p: u64,
    pub q: u64,
    pub l: u8,
}

impl Default for DepthUpdate {
    fn default() -> (d: Self)
        ensures
            d == (DepthUpdate { k: 0, p: 0, q: 0, l: 0 }),
    {
        DepthUpdate { k: 0, p: 0, q: 0, l: 0 }
    }
}

/// Liquidity offered at one price level by one location.
#[derive(Clone, Copy, Debug, PartialEq, Eq, Structural)]
pub struct Deal {
    pub p: u64,
    pub q: u64,
    pub l: u8,
}

/// The empty deal that fills a deal list before it is written.
pub open spec fn empty_deal() -> Deal {
    Deal { p: 0, q: 0, l: 0 }
}

/// The best deals of both sides at once.
#[derive(Clone, Copy, Debug)]
pub struct Deals {
    pub asks: [Deal; 10],
    pub bids: [Deal; 10],
}

/// A quote: the ten best deals of each side and the spread between the best
/// ask and the best bid, in thousandths.
#[derive(Clone, Copy, Debug)]
pub struct Quote {
    pub spread: i128,
    pub ask_deals: [Deal; 10],
    pub bid_deals: [Deal; 10],
}

} // verus!
