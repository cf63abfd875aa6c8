//! The price-level order book.
//!
//! Each side maps a price key to a level that holds the liquidity of two
//! locations, kept largest quantity first. Prices are whole thousandths. A
//! level built at price `L` is filed under the key `round_to_hundreth(L)`,
//! which is `L` scaled down tenfold, rounded half up; depth updates and
//! traversals look levels up by that key.

use crate::config::{OrderbookConfig, RingBufferConfig};
use crate::errors::ErrorHotPath;
use crate::objects::{Deal, DepthUpdate, Quote};
use crate::ring_buffer::{fed_from, RingBuffer};
use crossbeam_channel::Sender as CrossbeamSender;
use rustc_hash::{FxBuildHasher, FxHashMap};
use vstd::prelude::*;

verus! {

broadcast use vstd::array::group_array_axioms;

#[verifier::external_type_specification]
#[verifier::external_body]
pub struct ExFxBuildHasher(FxBuildHasher);

/// One side of the book: levels by key, hashed with `FxBuildHasher`.
pub type LevelMap = FxHashMap<u64, Level>;

/// The liquidity that one location offers at one level.
#[derive(Clone, Copy, Debug, PartialEq, Eq, Structural)]
pub struct LiquidityNode {
    pub q: u64,
    pub l: u8,
}

/// One price level: its price and the liquidity of locations 1 and 2.
#[derive(Clone, Copy, Debug)]
pub struct Level {
    pub price: u64,
    pub deque: [LiquidityNode; 2],
}

/// The nodes of a level nobody has offered liquidity at yet.
pub open spec fn fresh_nodes() -> Seq<LiquidityNode> {
    seq![LiquidityNode { q: 0, l: 1 }, LiquidityNode { q: 0, l: 2 }]
}

impl Level {
    /// A level at `price_level` with no liquidity at either location.
    pub fn new(price_level: u64) -> (lv: Self)
        ensures
            lv.price == price_level,
            lv.deque@ == fresh_nodes(),
    {
        let lv = Level {
            price: price_level,
            deque: [LiquidityNode { q: 0, l: 1 }, LiquidityNode { q: 0, l: 2 }],
        };
        proof {
            assert(lv.deque@ =~= fresh_nodes());
        }
        lv
    }
}

/// The key a level at `level` is filed under: `level` scaled down tenfold,
/// rounded half up.
pub open spec fn level_key(level: int) -> int {
    (level + 5) / 10
}

/// Computes the key a level at `num` is filed under.
pub fn round_to_hundreth(num: u64) -> (r: u64)
    requires
        num <= u64::MAX - 5,
    ensures
        r == level_key(num as int),
{
    (num + 5) / 10
}

/// `x` rounded half up to a whole hundredth (a multiple of ten thousandths).
pub open spec fn cents(x: int) -> int {
    ((x + 5) / 10) * 10
}

/// A whole-hundredth rounding moves a value by at most five thousandths.
pub proof fn lemma_cents_bounds(x: int)
    ensures
        x - 5 < cents(x) <= x + 5,
        x >= 0 ==> cents(x) >= 0,
{
    assert(((x + 5) / 10) * 10 <= x + 5 && ((x + 5) / 10) * 10 > x - 5) by (nonlinear_arith);
    assert(x >= 0 ==> ((x + 5) / 10) * 10 >= 0) by (nonlinear_arith);
}

/// Rounds `x` half up to a whole hundredth.
pub fn round_to_cents(x: u64) -> (r: u64)
    requires
        x <= u64::MAX - 5,
    ensures
        r == cents(x as int),
{
    ((x + 5) / 10) * 10
}

/// The `j`-th level of the grid that starts at `mid` with steps of `diff`.
pub open spec fn grid_level(mid: int, diff: int, j: int) -> int {
    mid + j * diff
}

/// The keys of grid levels `lo..=hi`.
pub open spec fn grid_keys(mid: int, diff: int, lo: int, hi: int) -> Set<u64> {
    Set::new(
        |k: u64|
            exists|j: int|
                lo <= j <= hi && k as int == level_key(#[trigger] grid_level(mid, diff, j)),
    )
}

/// Every level of `m` is an empty level at one of grid levels `lo..=hi`,
/// filed under its own key.
pub open spec fn grid_levels_fresh(m: Map<u64, Level>, mid: int, diff: int, lo: int, hi: int) -> bool {
    forall|k: u64|
        #[trigger] m.contains_key(k) ==> {
            &&& m[k].deque@ == fresh_nodes()
            &&& level_key(m[k].price as int) == k
            &&& exists|j: int| lo <= j <= hi && m[k].price == #[trigger] grid_level(mid, diff, j)
        }
}

/// `m` is one freshly built side of a book: levels `-2 * depth ..= 2 * depth + 1`
/// of the grid at `mid` with steps of `diff`, all empty.
pub open spec fn is_grid_side(m: Map<u64, Level>, mid: int, diff: int, depth: int) -> bool {
    &&& m.dom() == grid_keys(mid, diff, -2 * depth, 2 * depth + 1)
    &&& grid_levels_fresh(m, mid, diff, -2 * depth, 2 * depth + 1)
}

/// The nodes of a level after location `l` reports quantity `q`: the first
/// node of that location takes `q`, then the nodes are ordered largest
/// quantity first, ties keeping their order.
pub open spec fn updated_nodes(nodes: Seq<LiquidityNode>, l: u8, q: u64) -> Seq<LiquidityNode> {
    let n0 = nodes[0];
    let n1 = nodes[1];
    let m0 = if n0.l == l {
        LiquidityNode { q, l: n0.l }
    } else {
        n0
    };
    let m1 = if n0.l != l && n1.l == l {
        LiquidityNode { q, l: n1.l }
    } else {
        n1
    };
    if m1.q > m0.q {
        seq![m1, m0]
    } else {
        seq![m0, m1]
    }
}

/// `after` is `before` once location `l` has reported quantity `q`.
pub open spec fn level_updated(before: Level, after: Level, l: u8, q: u64) -> bool {
    &&& after.price == before.price
    &&& after.deque@ == updated_nodes(before.deque@, l, q)
}

/// `book` after a depth update at key `p` from location `l` with quantity `q`.
pub open spec fn book_updated(
    before: Map<u64, Level>,
    after: Map<u64, Level>,
    p: u64,
    l: u8,
    q: u64,
) -> bool {
    &&& before.contains_key(p)
    &&& after == before.insert(p, after[p])
    &&& level_updated(before[p], after[p], l, q)
}

/// The deals a level offers at `price`: its nodes with liquidity, in order.
pub open spec fn liquid_deals(lv: Level, price: u64) -> Seq<Deal> {
    let n0 = lv.deque@[0];
    let n1 = lv.deque@[1];
    (if n0.q != 0 {
        seq![Deal { p: price, q: n0.q, l: n0.l }]
    } else {
        Seq::<Deal>::empty()
    }) + (if n1.q != 0 {
        seq![Deal { p: price, q: n1.q, l: n1.l }]
    } else {
        Seq::<Deal>::empty()
    })
}

/// The deals offered under key `level` of `book`.
pub open spec fn level_deals(book: Map<u64, Level>, level: int) -> Seq<Deal> {
    if 0 <= level <= u64::MAX && book.contains_key(level as u64) {
        liquid_deals(book[level as u64], level as u64)
    } else {
        Seq::<Deal>::empty()
    }
}

/// The key above `level` on the way up: one hundredth higher, rounded to a
/// whole hundredth.
pub open spec fn next_ask_level(level: int) -> int {
    cents(level + 10)
}

/// The key below `level` on the way down: one hundredth lower, rounded to a
/// whole hundredth.
pub open spec fn next_bid_level(level: int) -> int {
    cents(level - 10)
}

/// Every deal of `book` from key `level` up to key `highest`, nearest first.
pub open spec fn ask_deals_from(book: Map<u64, Level>, level: int, highest: int) -> Seq<Deal>
    decreases (if level > highest { 0 } else { highest + 1 - level }),
{
    if level > highest || level < 0 {
        Seq::<Deal>::empty()
    } else {
        proof {
            lemma_cents_bounds(level + 10);
        }
        level_deals(book, level) + ask_deals_from(book, next_ask_level(level), highest)
    }
}

/// Every deal of `book` from key `level` down to key `lowest`, nearest
/// first; the walk also ends below the first hundredth.
pub open spec fn bid_deals_from(book: Map<u64, Level>, level: int, lowest: int) -> Seq<Deal>
    decreases level,
{
    if level < lowest || level < 0 {
        Seq::<Deal>::empty()
    } else if level < 10 {
        level_deals(book, level)
    } else {
        proof {
            lemma_cents_bounds(level - 10);
        }
        level_deals(book, level) + bid_deals_from(book, next_bid_level(level), lowest)
    }
}

/// The result of one traversal given `all`, every deal it could collect:
/// the first ten, or an error when there are fewer.
pub open spec fn best_ten(all: Seq<Deal>, r: Result<[Deal; 10], ErrorHotPath>) -> bool {
    &&& all.len() >= 10 ==> (r matches Ok(deals) && deals@ == all.take(10))
    &&& all.len() < 10 ==> (r matches Err(ErrorHotPath::OrderBookMaxTraversedReached))
}

/// Calls `HashMap::get` on a level map hashed with `FxBuildHasher` and copies
/// the level out. `FxBuildHasher` hashes deterministically and `u64` keys
/// compare by value, so the map behaves as the mathematical map of its view.
#[verifier::external_body]
fn level_at(book: &LevelMap, price: u64) -> (r: Option<Level>)
    ensures
        book@.contains_key(price) ==> r == Some(book@[price]),
        !book@.contains_key(price) ==> r is None,
{
    book.get(&price).copied()
}

/// Calls `HashMap::insert` on a level map hashed with `FxBuildHasher`: the
/// map then sends `price` to `level` and is otherwise unchanged.
#[verifier::external_body]
fn put_level(book: &mut LevelMap, price: u64, level: Level)
    ensures
        final(book)@ == old(book)@.insert(price, level),
{
    book.insert(price, level);
}

/// Calls `FxHashMap::default`, an empty level map.
#[verifier::external_body]
fn empty_side() -> (side: LevelMap)
    ensures
        side@.dom() == Set::<u64>::empty(),
{
    FxHashMap::default()
}

proof fn lemma_grid_step(mid: int, diff: int, j: int)
    ensures
        grid_level(mid, diff, j + 1) == grid_level(mid, diff, j) + diff,
        grid_level(mid, diff, j - 1) == grid_level(mid, diff, j) - diff,
{
    assert((j + 1) * diff == j * diff + diff) by (nonlinear_arith);
    assert((j - 1) * diff == j * diff - diff) by (nonlinear_arith);
}

proof fn lemma_grid_bounds(mid: int, diff: int, depth: int, j: int)
    requires
        diff >= 0,
        depth >= 0,
        -2 * depth <= j <= 2 * depth + 1,
    ensures
        grid_level(mid, diff, -2 * depth) <= grid_level(mid, diff, j) <= grid_level(
            mid,
            diff,
            2 * depth + 1,
        ),
        grid_level(mid, diff, -2 * depth) == mid - 2 * depth * diff,
        grid_level(mid, diff, 2 * depth + 1) == mid + (2 * depth + 1) * diff,
{
    assert(-2 * depth * diff <= j * diff <= (2 * depth + 1) * diff) by (nonlinear_arith)
        requires
            diff >= 0,
            -2 * depth <= j <= 2 * depth + 1,
    ;
    assert((-2 * depth) * diff == -(2 * depth * diff)) by (nonlinear_arith);
}

/// Adding the level at grid index `j` to a side that holds grid levels
/// `lo..=hi`, where `j` extends that range by one.
proof fn lemma_grid_insert(
    m: Map<u64, Level>,
    mid: int,
    diff: int,
    lo: int,
    hi: int,
    j: int,
    lv: Level,
)
    requires
        m.dom() == grid_keys(mid, diff, lo, hi),
        grid_levels_fresh(m, mid, diff, lo, hi),
        lo <= hi + 1,
        j == hi + 1 || j == lo - 1,
        lv.price == grid_level(mid, diff, j),
        lv.deque@ == fresh_nodes(),
        0 <= level_key(lv.price as int) <= u64::MAX,
    ensures
        ({
            let m2 = m.insert(level_key(lv.price as int) as u64, lv);
            let lo2 = if j == lo - 1 { j } else { lo };
            let hi2 = if j == hi + 1 { j } else { hi };
            &&& m2.dom() == grid_keys(mid, diff, lo2, hi2)
            &&& grid_levels_fresh(m2, mid, diff, lo2, hi2)
        }),
{
    let key = level_key(lv.price as int) as u64;
    let m2 = m.insert(key, lv);
    let lo2 = if j == lo - 1 {
        j
    } else {
        lo
    };
    let hi2 = if j == hi + 1 {
        j
    } else {
        hi
    };
    assert forall|k: u64| grid_keys(mid, diff, lo2, hi2).contains(k) implies m2.dom().contains(k) by {
        let w = choose|w: int|
            lo2 <= w <= hi2 && k as int == level_key(#[trigger] grid_level(mid, diff, w));
        if w != j {
            assert(lo <= w <= hi);
            assert(grid_keys(mid, diff, lo, hi).contains(k));
        } else {
            assert(lv.price as int == grid_level(mid, diff, j));
            assert(key as int == level_key(lv.price as int));
            assert(k == key);
        }
    }
    assert forall|k: u64| m2.dom().contains(k) implies grid_keys(mid, diff, lo2, hi2).contains(k) by {
        if k == key {
            assert(k as int == level_key(grid_level(mid, diff, j)));
        } else {
            assert(grid_keys(mid, diff, lo, hi).contains(k));
            let w = choose|w: int|
                lo <= w <= hi && k as int == level_key(#[trigger] grid_level(mid, diff, w));
            assert(lo2 <= w <= hi2);
        }
    }
    assert(m2.dom() =~= grid_keys(mid, diff, lo2, hi2));
    assert forall|k: u64| #[trigger] m2.contains_key(k) implies {
        &&& m2[k].deque@ == fresh_nodes()
        &&& level_key(m2[k].price as int) == k
        &&& exists|w: int| lo2 <= w <= hi2 && m2[k].price == #[trigger] grid_level(mid, diff, w)
    } by {
        if k == key {
            assert(m2[k].price == grid_level(mid, diff, j));
        } else {
            let w = choose|w: int| lo <= w <= hi && m[k].price == #[trigger] grid_level(mid, diff, w);
            assert(m2[k].price == grid_level(mid, diff, w));
        }
    }
}

/// Builds one side of a book: levels `-2 * depth ..= 2 * depth + 1` of the
/// grid at `mid_level` with steps of `level_diff`, all empty, each filed
/// under its key. Levels are added going up from the mid level first, then
/// going down from it.
fn build_side(level_diff: u64, mid_level: u64, depth: u64) -> (side: LevelMap)
    requires
        depth <= u64::MAX / 4,
        2 * depth * level_diff <= mid_level,
        mid_level + (2 * depth + 1) * level_diff <= u64::MAX - 20,
    ensures
        is_grid_side(side@, mid_level as int, level_diff as int, depth as int),
{
    let ghost mid = mid_level as int;
    let ghost diff = level_diff as int;
    let ghost d = depth as int;
    let two_depth = depth * 2;
    let mut side = empty_side();
    let mut current_level = mid_level;
    let mut i: u64 = 0;
    proof {
        assert(side@.dom() =~= grid_keys(mid, diff, 1, 0));
        assert((2 * d + 1) * diff >= 0) by (nonlinear_arith)
            requires
                d >= 0,
                diff >= 0,
        ;
    }
    while i <= two_depth
        invariant
            two_depth == 2 * d,
            d <= u64::MAX / 4,
            mid == mid_level,
            diff == level_diff,
            2 * d * diff <= mid,
            mid + (2 * d + 1) * diff <= u64::MAX - 20,
            i <= two_depth + 1,
            current_level == grid_level(mid, diff, i as int),
            side@.dom() == grid_keys(mid, diff, 1, i as int),
            grid_levels_fresh(side@, mid, diff, 1, i as int),
        decreases two_depth + 1 - i,
    {
        proof {
            lemma_grid_step(mid, diff, i as int);
            lemma_grid_bounds(mid, diff, d, i + 1);
            lemma_grid_bounds(mid, diff, d, 0);
        }
        current_level = current_level + level_diff;
        let lv = Level::new(current_level);
        let key = round_to_hundreth(current_level);
        proof {
            lemma_grid_insert(side@, mid, diff, 1, i as int, i + 1, lv);
        }
        put_level(&mut side, key, lv);
        i = i + 1;
    }
    current_level = mid_level;
    let mut i: u64 = 0;
    proof {
        assert(grid_level(mid, diff, 0) == mid);
    }
    while i <= two_depth
        invariant
            two_depth == 2 * d,
            d <= u64::MAX / 4,
            mid == mid_level,
            diff == level_diff,
            2 * d * diff <= mid,
            mid + (2 * d + 1) * diff <= u64::MAX - 20,
            i <= two_depth + 1,
            current_level == grid_level(mid, diff, if i == 0 { 0 } else { 1 - i }),
            side@.dom() == grid_keys(mid, diff, 1 - i, 2 * d + 1),
            grid_levels_fresh(side@, mid, diff, 1 - i, 2 * d + 1),
        decreases two_depth + 1 - i,
    {
        proof {
            lemma_grid_step(mid, diff, 1 - i);
            lemma_grid_bounds(mid, diff, d, -(i as int));
            lemma_grid_bounds(mid, diff, d, 0);
        }
        if i > 0 {
            current_level = current_level - level_diff;
        }
        let lv = Level::new(current_level);
        let key = round_to_hundreth(current_level);
        proof {
            assert(current_level == grid_level(mid, diff, -(i as int)));
            lemma_grid_insert(side@, mid, diff, 1 - i, 2 * d + 1, -(i as int), lv);
        }
        put_level(&mut side, key, lv);
        i = i + 1;
    }
    side
}

/// The order book: both sides, the best levels seen so far, and the buffer of
/// depth updates waiting to be applied.
pub struct OrderBook {
    ring_buffer: RingBuffer,
    best_deal_bids_level: u64,
    best_deal_asks_level: u64,
    asks: LevelMap,
    bids: LevelMap,
    level_diff: u64,
    lowest_level: u64,
    highest_level: u64,
    trigger_depth_snapshots: bool,
    run_quote: bool,
}


/// The quote that the deals `asks` and `bids` of both sides give: the first
/// ten of each and the spread between the best of each, or an error when a
/// side holds fewer than ten.
pub open spec fn quote_from(asks: Seq<Deal>, bids: Seq<Deal>, r: Result<Quote, ErrorHotPath>) -> bool {
    &&& asks.len() < 10 ==> (r matches Err(ErrorHotPath::OrderBookMaxTraversedReached))
    &&& asks.len() >= 10 && bids.len() < 10 ==> (r matches Err(
        ErrorHotPath::OrderBookMaxTraversedReached,
    ))
    &&& asks.len() >= 10 && bids.len() >= 10 ==> (r matches Ok(q) && q.ask_deals@ == asks.take(10)
        && q.bid_deals@ == bids.take(10) && q.spread == asks[0].p - bids[0].p)
}

/// `r` is the error for a depth update at a price the book has no level for.
pub open spec fn is_no_level<T>(r: Result<T, ErrorHotPath>) -> bool {
    r matches Err(ErrorHotPath::OrderBook(s)) && s@ == "no level found"@
}

/// Applies a depth update from location `depth_update.l` to the level under
/// key `depth_update.p`, or fails when there is no such level.
fn update_level(book: &mut LevelMap, depth_update: DepthUpdate) -> (r: Result<(), ErrorHotPath>)
    ensures
        old(book)@.contains_key(depth_update.p) ==> r is Ok && book_updated(
            old(book)@,
            final(book)@,
            depth_update.p,
            depth_update.l,
            depth_update.q,
        ),
        !old(book)@.contains_key(depth_update.p) ==> is_no_level(r) && final(book)@ == old(book)@,
{
    match level_at(book, depth_update.p) {
        Some(level) => {
            let n0 = level.deque[0];
            let n1 = level.deque[1];
            let m0 = if n0.l == depth_update.l {
                LiquidityNode { q: depth_update.q, l: n0.l }
            } else {
                n0
            };
            let m1 = if n0.l != depth_update.l && n1.l == depth_update.l {
                LiquidityNode { q: depth_update.q, l: n1.l }
            } else {
                n1
            };
            let deque = if m1.q > m0.q {
                [m1, m0]
            } else {
                [m0, m1]
            };
            let updated = Level { price: level.price, deque };
            proof {
                assert(updated.deque@ =~= updated_nodes(level.deque@, depth_update.l, depth_update.q));
            }
            put_level(book, depth_update.p, updated);
            proof {
                assert(book@ =~= old(book)@.insert(depth_update.p, book@[depth_update.p]));
            }
            Ok(())
        },
        None => Err(ErrorHotPath::OrderBook(String::from_str("no level found"))),
    }
}

/// Builds both sides of a book: each holds levels `-2 * depth ..= 2 * depth + 1`
/// of the grid at `mid_level` with steps of `level_diff`, all empty.
fn build_orderbook(level_diff: u64, mid_level: u64, depth: u64) -> (sides: (LevelMap, LevelMap))
    requires
        depth <= u64::MAX / 4,
        2 * depth * level_diff <= mid_level,
        mid_level + (2 * depth + 1) * level_diff <= u64::MAX - 20,
    ensures
        is_grid_side(sides.0@, mid_level as int, level_diff as int, depth as int),
        is_grid_side(sides.1@, mid_level as int, level_diff as int, depth as int),
{
    let asks = build_side(level_diff, mid_level, depth);
    let bids = build_side(level_diff, mid_level, depth);
    (asks, bids)
}

/// What a book holds, apart from the depth updates waiting to be applied.
pub struct BookView {
    /// The ask side.
    pub asks: Map<u64, Level>,
    /// The bid side.
    pub bids: Map<u64, Level>,
    /// The key ask traversals start from.
    pub best_ask: u64,
    /// The key bid traversals start from.
    pub best_bid: u64,
    /// The lowest key of the book.
    pub lowest: u64,
    /// The highest key of the book.
    pub highest: u64,
    /// The step between built levels.
    pub tick: u64,
    /// Whether applying a depth update also computes a quote.
    pub quoting: bool,
    /// Whether a depth snapshot still has to be requested.
    pub snapshot_pending: bool,
}

impl BookView {
    /// Every ask deal from the best ask up to the top of the book.
    pub open spec fn ask_deals(self) -> Seq<Deal> {
        ask_deals_from(self.asks, self.best_ask as int, self.highest as int)
    }

    /// Every bid deal from the best bid down to the bottom of the book.
    pub open spec fn bid_deals(self) -> Seq<Deal> {
        bid_deals_from(self.bids, self.best_bid as int, self.lowest as int)
    }
}

impl View for OrderBook {
    type V = BookView;

    closed spec fn view(&self) -> BookView {
        BookView {
            asks: self.asks@,
            bids: self.bids@,
            best_ask: self.best_deal_asks_level,
            best_bid: self.best_deal_bids_level,
            lowest: self.lowest_level,
            highest: self.highest_level,
            tick: self.level_diff,
            quoting: self.run_quote,
            snapshot_pending: self.trigger_depth_snapshots,
        }
    }
}

impl OrderBook {
    /// The representation invariant: walking up from any key at or below the
    /// highest one never overflows.
    pub closed spec fn wf(&self) -> bool {
        self.highest_level <= u64::MAX - 20
    }

    /// The depth updates waiting to be applied, oldest first.
    pub closed spec fn pending(&self) -> Seq<DepthUpdate> {
        self.ring_buffer.contents()
    }

    /// How many waiting depth updates are kept.
    pub closed spec fn pending_capacity(&self) -> nat {
        self.ring_buffer.capacity()
    }

    /// A book configured by `config`: `config.depth` levels on each side of
    /// `config.mid_price` (whole units), `config.tick_size` apart, and the
    /// sending half of the channel that feeds its depth buffer. Quoting is
    /// off and a depth snapshot is pending.
    pub fn new(config: &OrderbookConfig) -> (r: (OrderBook, CrossbeamSender<DepthUpdate>))
        requires
            0 <= config.depth <= u64::MAX / 4,
            0 <= config.mid_price <= u64::MAX / 1000,
            2 * config.depth * config.tick_size <= config.mid_price * 1000,
            config.mid_price * 1000 + (2 * config.depth + 1) * config.tick_size <= u64::MAX - 20,
            config.ring_buffer.channel_buffer_size <= isize::MAX as usize / 64,
        ensures
            r.0.wf(),
            is_grid_side(
                r.0@.asks,
                config.mid_price * 1000,
                config.tick_size as int,
                config.depth as int,
            ),
            is_grid_side(
                r.0@.bids,
                config.mid_price * 1000,
                config.tick_size as int,
                config.depth as int,
            ),
            r.0@.lowest == level_key(config.mid_price * 1000 - 2 * config.depth * config.tick_size),
            r.0@.highest == level_key(
                config.mid_price * 1000 + (2 * config.depth + 1) * config.tick_size,
            ),
            r.0@.best_bid == 0,
            r.0@.best_ask == 10_000_000_000,
            r.0@.tick == config.tick_size,
            !r.0@.quoting,
            r.0@.snapshot_pending,
            r.0.pending() == Seq::<DepthUpdate>::empty(),
            r.0.pending_capacity() == config.ring_buffer.ring_buffer_size,
    {
        let mid_level = config.mid_price as u64 * 1000;
        let depth = config.depth as u64;
        let (mut orderbook, depth_producers) = OrderBook::with_book(
            config.tick_size,
            mid_level,
            depth,
            &config.ring_buffer,
        );
        orderbook.best_deal_asks_level = 10_000_000_000;
        orderbook.trigger_depth_snapshots = true;
        (orderbook, depth_producers)
    }

    /// A book of `depth` levels on each side of `mid_level`, `level_diff`
    /// apart (all in thousandths), with both best levels at 0, quoting off
    /// and no snapshot pending, and the sending half of the channel that
    /// feeds its depth buffer.
    pub fn with_book(
        level_diff: u64,
        mid_level: u64,
        depth: u64,
        ring_buffer_config: &RingBufferConfig,
    ) -> (r: (OrderBook, CrossbeamSender<DepthUpdate>))
        requires
            depth <= u64::MAX / 4,
            2 * depth * level_diff <= mid_level,
            mid_level + (2 * depth + 1) * level_diff <= u64::MAX - 20,
            ring_buffer_config.channel_buffer_size <= isize::MAX as usize / 64,
        ensures
            r.0.wf(),
            is_grid_side(r.0@.asks, mid_level as int, level_diff as int, depth as int),
            is_grid_side(r.0@.bids, mid_level as int, level_diff as int, depth as int),
            r.0@.lowest == level_key(mid_level - 2 * depth * level_diff),
            r.0@.highest == level_key(mid_level + (2 * depth + 1) * level_diff),
            r.0@.best_bid == 0,
            r.0@.best_ask == 0,
            r.0@.tick == level_diff,
            !r.0@.quoting,
            !r.0@.snapshot_pending,
            r.0.pending() == Seq::<DepthUpdate>::empty(),
            r.0.pending_capacity() == ring_buffer_config.ring_buffer_size,
    {
        let (asks, bids) = build_orderbook(level_diff, mid_level, depth);
        let (ring_buffer, depth_producer) = RingBuffer::new(ring_buffer_config);
        proof {
            lemma_grid_bounds(mid_level as int, level_diff as int, depth as int, 0);
        }
        let lowest_level = round_to_hundreth(mid_level - 2 * depth * level_diff);
        let highest_level = round_to_hundreth(mid_level + (2 * depth + 1) * level_diff);
        let orderbook = OrderBook {
            ring_buffer,
            best_deal_bids_level: 0,
            best_deal_asks_level: 0,
            asks,
            bids,
            level_diff,
            lowest_level,
            highest_level,
            trigger_depth_snapshots: false,
            run_quote: false,
        };
        (orderbook, depth_producer)
    }
}


/// Writes the deals that `level` offers at `price` into `deals`, from
/// position `counter` on, as many as fit below ten; `before` is what the
/// first `counter` positions hold. Returns the new count.
fn write_level_deals(
    deals: &mut [Deal; 10],
    counter: usize,
    level: Level,
    price: u64,
    Ghost(before): Ghost<Seq<Deal>>,
) -> (n: usize)
    requires
        counter < 10,
        before.len() == counter,
        old(deals)@.take(counter as int) == before,
    ensures
        counter <= n <= 10,
        n <= counter + liquid_deals(level, price).len(),
        n < 10 ==> n == counter + liquid_deals(level, price).len(),
        final(deals)@.take(n as int) == (before + liquid_deals(level, price)).take(n as int),
{
    let mut counter = counter;
    let counter_before = counter;
    let n0 = level.deque[0];
    let ghost first: Seq<Deal> = if n0.q != 0 {
        seq![Deal { p: price, q: n0.q, l: n0.l }]
    } else {
        Seq::<Deal>::empty()
    };
    proof {
        assert forall|i: int| 0 <= i < counter_before implies deals@[i] == before[i] by {
            assert(deals@.take(counter_before as int)[i] == before.take(counter_before as int)[i]);
        }
    }
    if n0.q != 0 {
        deals[counter] = Deal { p: price, q: n0.q, l: n0.l };
        counter = counter + 1;
    }
    proof {
        assert(deals@.take(counter as int) =~= (before + first).take(counter as int));
    }
    let ghost counter_mid = counter;
    proof {
        assert forall|i: int| 0 <= i < counter_mid implies deals@[i] == (before + first)[i] by {
            assert(deals@.take(counter_mid as int)[i] == (before + first).take(counter_mid as int)[i]);
        }
    }
    if counter < 10 {
        let n1 = level.deque[1];
        if n1.q != 0 {
            deals[counter] = Deal { p: price, q: n1.q, l: n1.l };
            counter = counter + 1;
        }
    }
    proof {
        let all = before + liquid_deals(level, price);
        assert(all =~= before + first + (liquid_deals(level, price).subrange(
            first.len() as int,
            liquid_deals(level, price).len() as int,
        )));
        assert(deals@.take(counter as int) =~= all.take(counter as int));
    }
    counter
}

impl OrderBook {
    /// Applies a bid-side depth update: the level under key `depth_update.p`
    /// takes the quantity of location `depth_update.l`.
    pub fn bid_update(&mut self, depth_update: DepthUpdate) -> (r: Result<(), ErrorHotPath>)
        requires
            old(self).wf(),
        ensures
            final(self).wf(),
            final(self)@.asks == old(self)@.asks,
            old(self)@.bids.contains_key(depth_update.p) ==> r is Ok && book_updated(
                old(self)@.bids,
                final(self)@.bids,
                depth_update.p,
                depth_update.l,
                depth_update.q,
            ),
            !old(self)@.bids.contains_key(depth_update.p) ==> is_no_level(r) && final(self)@.bids == old(self)@.bids,
            final(self)@.best_ask == old(self)@.best_ask,
            final(self)@.best_bid == old(self)@.best_bid,
            final(self)@.lowest == old(self)@.lowest,
            final(self)@.highest == old(self)@.highest,
            final(self)@.tick == old(self)@.tick,
            final(self)@.quoting == old(self)@.quoting,
            final(self)@.snapshot_pending == old(self)@.snapshot_pending,
            final(self).pending() == old(self).pending(),
            final(self).pending_capacity() == old(self).pending_capacity(),
    {
        update_level(&mut self.bids, depth_update)
    }

    /// Applies an ask-side depth update: the level under key `depth_update.p`
    /// takes the quantity of location `depth_update.l`.
    pub fn ask_update(&mut self, depth_update: DepthUpdate) -> (r: Result<(), ErrorHotPath>)
        requires
            old(self).wf(),
        ensures
            final(self).wf(),
            final(self)@.bids == old(self)@.bids,
            old(self)@.asks.contains_key(depth_update.p) ==> r is Ok && book_updated(
                old(self)@.asks,
                final(self)@.asks,
                depth_update.p,
                depth_update.l,
                depth_update.q,
            ),
            !old(self)@.asks.contains_key(depth_update.p) ==> is_no_level(r) && final(self)@.asks == old(self)@.asks,
            final(self)@.best_ask == old(self)@.best_ask,
            final(self)@.best_bid == old(self)@.best_bid,
            final(self)@.lowest == old(self)@.lowest,
            final(self)@.highest == old(self)@.highest,
            final(self)@.tick == old(self)@.tick,
            final(self)@.quoting == old(self)@.quoting,
            final(self)@.snapshot_pending == old(self)@.snapshot_pending,
            final(self).pending() == old(self).pending(),
            final(self).pending_capacity() == old(self).pending_capacity(),
    {
        update_level(&mut self.asks, depth_update)
    }

    /// The ten nearest ask deals from the best ask upward, one per location
    /// with liquidity at each level, or an error when the book holds fewer
    /// below its top.
    pub fn traverse_asks(&self) -> (r: Result<[Deal; 10], ErrorHotPath>)
        requires
            self.wf(),
        ensures
            best_ten(self@.ask_deals(), r),
    {
        let mut deals: [Deal; 10] = [Deal { p: 0, q: 0, l: 0 };10];
        let mut current_ask_deal_counter: usize = 0;
        let mut current_level: u64 = self.best_deal_asks_level;
        let ghost book = self.asks@;
        let ghost highest = self.highest_level as int;
        let ghost full = ask_deals_from(book, current_level as int, highest);
        let ghost mut collected: Seq<Deal> = Seq::empty();
        while current_ask_deal_counter < 10
            invariant
                self.wf(),
                book == self.asks@,
                highest == self.highest_level,
                full == self@.ask_deals(),
                current_ask_deal_counter <= 10,
                current_ask_deal_counter <= collected.len(),
                current_ask_deal_counter < 10 ==> collected.len() == current_ask_deal_counter,
                full == collected + ask_deals_from(book, current_level as int, highest),
                deals@.take(current_ask_deal_counter as int) == collected.take(
                    current_ask_deal_counter as int,
                ),
            decreases (if current_level > highest {
                0
            } else {
                highest + 1 - current_level
            }),
        {
            if current_level > self.highest_level {
                proof {
                    assert(full =~= collected);
                }
                return Err(ErrorHotPath::OrderBookMaxTraversedReached);
            }
            let ghost before = collected;
            match level_at(&self.asks, current_level) {
                Some(level) => {
                    proof {
                        assert(before.take(current_ask_deal_counter as int) =~= before);
                    }
                    current_ask_deal_counter = write_level_deals(
                        &mut deals,
                        current_ask_deal_counter,
                        level,
                        current_level,
                        Ghost(before),
                    );
                    proof {
                        collected = before + liquid_deals(level, current_level);
                    }
                },
                None => {},
            }
            proof {
                lemma_cents_bounds(current_level + 10);
                assert(level_deals(book, current_level as int) == collected.subrange(
                    before.len() as int,
                    collected.len() as int,
                ));
                assert(collected =~= before + level_deals(book, current_level as int));
                assert(deals@.take(current_ask_deal_counter as int) =~= collected.take(
                    current_ask_deal_counter as int,
                ));
            }
            current_level = round_to_cents(current_level + 10);
            proof {
                assert(full =~= collected + ask_deals_from(book, current_level as int, highest));
            }
        }
        proof {
            assert(deals@ =~= deals@.take(10));
            assert(full.take(10) =~= collected.take(10));
        }
        Ok(deals)
    }

    /// The ten nearest bid deals from the best bid downward, one per location
    /// with liquidity at each level, or an error when the book holds fewer
    /// above its bottom.
    pub fn traverse_bids(&self) -> (r: Result<[Deal; 10], ErrorHotPath>)
        requires
            self.wf(),
        ensures
            best_ten(self@.bid_deals(), r),
    {
        let mut deals: [Deal; 10] = [Deal { p: 0, q: 0, l: 0 };10];
        let mut current_bid_deal_counter: usize = 0;
        let mut current_level: u64 = self.best_deal_bids_level;
        let ghost book = self.bids@;
        let ghost lowest = self.lowest_level as int;
        let ghost full = bid_deals_from(book, current_level as int, lowest);
        let ghost mut collected: Seq<Deal> = Seq::empty();
        while current_bid_deal_counter < 10
            invariant
                self.wf(),
                book == self.bids@,
                lowest == self.lowest_level,
                full == self@.bid_deals(),
                current_bid_deal_counter <= 10,
                current_bid_deal_counter <= collected.len(),
                current_bid_deal_counter < 10 ==> collected.len() == current_bid_deal_counter,
                full == collected + bid_deals_from(book, current_level as int, lowest),
                deals@.take(current_bid_deal_counter as int) == collected.take(
                    current_bid_deal_counter as int,
                ),
            decreases current_level,
        {
            if current_level < self.lowest_level {
                proof {
                    assert(full =~= collected);
                }
                return Err(ErrorHotPath::OrderBookMaxTraversedReached);
            }
            let ghost before = collected;
            match level_at(&self.bids, current_level) {
                Some(level) => {
                    proof {
                        assert(before.take(current_bid_deal_counter as int) =~= before);
                    }
                    current_bid_deal_counter = write_level_deals(
                        &mut deals,
                        current_bid_deal_counter,
                        level,
                        current_level,
                        Ghost(before),
                    );
                    proof {
                        collected = before + liquid_deals(level, current_level);
                    }
                },
                None => {},
            }
            proof {
                lemma_cents_bounds(current_level - 10);
                assert(level_deals(book, current_level as int) == collected.subrange(
                    before.len() as int,
                    collected.len() as int,
                ));
                assert(collected =~= before + level_deals(book, current_level as int));
                assert(deals@.take(current_bid_deal_counter as int) =~= collected.take(
                    current_bid_deal_counter as int,
                ));
            }
            if current_level < 10 {
                proof {
                    assert(full =~= collected);
                }
                if current_bid_deal_counter < 10 {
                    return Err(ErrorHotPath::OrderBookMaxTraversedReached);
                }
                proof {
                    assert(deals@ =~= deals@.take(10));
                    assert(full.take(10) =~= collected.take(10));
                }
                return Ok(deals);
            }
            current_level = round_to_cents(current_level - 10);
            proof {
                assert(full =~= collected + bid_deals_from(book, current_level as int, lowest));
            }
        }
        proof {
            assert(deals@ =~= deals@.take(10));
            assert(full.take(10) =~= collected.take(10));
        }
        Ok(deals)
    }
}


/// The book `after` applying depth update `d` to `before`: `k == 0` touches
/// the ask side, `k == 1` the bid side, each after moving that side's best
/// level to `d.p` when `d.p` lies beyond it (above the best ask, below the best
/// bid); the level under key `d.p`, if any, takes location `d.l`'s quantity.
/// Any other `k` changes nothing.
pub open spec fn update_state(before: BookView, after: BookView, d: DepthUpdate) -> bool {
    &&& after.lowest == before.lowest
    &&& after.highest == before.highest
    &&& after.tick == before.tick
    &&& after.quoting == before.quoting
    &&& after.snapshot_pending == before.snapshot_pending
    &&& if d.k == 0 {
        &&& after.best_ask == (if before.best_ask < d.p {
            d.p
        } else {
            before.best_ask
        })
        &&& after.best_bid == before.best_bid
        &&& after.bids == before.bids
        &&& before.asks.contains_key(d.p) ==> book_updated(before.asks, after.asks, d.p, d.l, d.q)
        &&& !before.asks.contains_key(d.p) ==> after.asks == before.asks
    } else if d.k == 1 {
        &&& after.best_bid == (if before.best_bid > d.p {
            d.p
        } else {
            before.best_bid
        })
        &&& after.best_ask == before.best_ask
        &&& after.asks == before.asks
        &&& before.bids.contains_key(d.p) ==> book_updated(before.bids, after.bids, d.p, d.l, d.q)
        &&& !before.bids.contains_key(d.p) ==> after.bids == before.bids
    } else {
        &&& after.asks == before.asks
        &&& after.bids == before.bids
        &&& after.best_ask == before.best_ask
        &&& after.best_bid == before.best_bid
    }
}

/// Whether depth update `d` finds a level in `book`.
pub open spec fn update_lands(book: BookView, d: DepthUpdate) -> bool {
    ||| d.k == 0 && book.asks.contains_key(d.p)
    ||| d.k == 1 && book.bids.contains_key(d.p)
}

/// What applying depth update `d` to `before`, giving `after`, returns: the
/// error for an unknown side or a missing level; otherwise, when quoting is on,
/// the quote of `after`, and nothing when it is off.
pub open spec fn update_outcome(
    before: BookView,
    after: BookView,
    d: DepthUpdate,
    r: Result<Option<Quote>, ErrorHotPath>,
) -> bool {
    if d.k > 1 {
        r matches Err(ErrorHotPath::OrderBook(s)) && s@ == "0 1 ASKS or 1 BIDS given by depth update"@
    } else if !update_lands(before, d) {
        is_no_level(r)
    } else if before.quoting {
        quoted(after.ask_deals(), after.bid_deals(), r)
    } else {
        r matches Ok(None)
    }
}

/// `r` carries the quote that the deals `asks` and `bids` of both sides give,
/// or the error when a side holds fewer than ten.
pub open spec fn quoted(asks: Seq<Deal>, bids: Seq<Deal>, r: Result<Option<Quote>, ErrorHotPath>) -> bool {
    &&& (asks.len() < 10 || bids.len() < 10) ==> (r matches Err(
        ErrorHotPath::OrderBookMaxTraversedReached,
    ))
    &&& asks.len() >= 10 && bids.len() >= 10 ==> (r matches Ok(Some(q)) && q.ask_deals@ == asks.take(
        10,
    ) && q.bid_deals@ == bids.take(10) && q.spread == asks[0].p - bids[0].p)
}

impl OrderBook {
    /// The quote of the book: the ten nearest deals of each side and the
    /// spread between the best ask deal and the best bid deal.
    pub fn run_quote(&self) -> (r: Result<Quote, ErrorHotPath>)
        requires
            self.wf(),
        ensures
            quote_from(self@.ask_deals(), self@.bid_deals(), r),
            r matches Ok(q) ==> q.spread == q.ask_deals@[0].p - q.bid_deals@[0].p,
    {
        let ask_deals = match self.traverse_asks() {
            Ok(deals) => deals,
            Err(e) => return Err(e),
        };
        let bid_deals = match self.traverse_bids() {
            Ok(deals) => deals,
            Err(e) => return Err(e),
        };
        let quote = Quote {
            spread: ask_deals[0].p as i128 - bid_deals[0].p as i128,
            ask_deals: ask_deals,
            bid_deals: bid_deals,
        };
        proof {
            assert(ask_deals@[0] == self@.ask_deals().take(10)[0]);
            assert(bid_deals@[0] == self@.bid_deals().take(10)[0]);
        }
        Ok(quote)
    }

    /// Applies one depth update: `k == 0` updates the ask side, `k == 1` the
    /// bid side, each after moving its best level to the update's price when
    /// that price lies beyond it; any other `k` is rejected. When quoting is
    /// on, a successful update also yields the book's quote.
    pub fn update_book(&mut self, depth_update: DepthUpdate) -> (r: Result<
        Option<Quote>,
        ErrorHotPath,
    >)
        requires
            old(self).wf(),
        ensures
            final(self).wf(),
            final(self).pending() == old(self).pending(),
            final(self).pending_capacity() == old(self).pending_capacity(),
            update_state(old(self)@, final(self)@, depth_update),
            update_outcome(old(self)@, final(self)@, depth_update, r),
            r matches Ok(Some(q)) ==> q.spread == q.ask_deals@[0].p - q.bid_deals@[0].p,
    {
        if depth_update.k == 0 {
            if self.best_deal_asks_level < depth_update.p {
                self.best_deal_asks_level = depth_update.p;
            }
            let update_result = self.ask_update(depth_update);
            match update_result {
                Ok(()) => {
                    if self.run_quote {
                        return match self.run_quote() {
                            Ok(quote) => Ok(Some(quote)),
                            Err(e) => Err(e),
                        };
                    }
                    Ok(None)
                },
                Err(e) => Err(e),
            }
        } else if depth_update.k == 1 {
            if self.best_deal_bids_level > depth_update.p {
                self.best_deal_bids_level = depth_update.p;
            }
            let update_result = self.bid_update(depth_update);
            match update_result {
                Ok(()) => {
                    if self.run_quote {
                        return match self.run_quote() {
                            Ok(quote) => Ok(Some(quote)),
                            Err(e) => Err(e),
                        };
                    }
                    Ok(None)
                },
                Err(e) => Err(e),
            }
        } else {
            Err(
                ErrorHotPath::OrderBook(
                    String::from_str("0 1 ASKS or 1 BIDS given by depth update"),
                ),
            )
        }
    }
}


/// What taking depth update `d` off the buffer gives, where a failed update
/// is dropped: the quote of `after` when `d` lands on a level, quoting is on
/// and both sides of `after` hold ten deals; otherwise nothing.
pub open spec fn applied_outcome(
    before: BookView,
    after: BookView,
    d: DepthUpdate,
    r: Option<Quote>,
) -> bool {
    if d.k <= 1 && update_lands(before, d) && before.quoting && after.ask_deals().len() >= 10
        && after.bid_deals().len() >= 10 {
        r matches Some(q) && q.ask_deals@ == after.ask_deals().take(10) && q.bid_deals@
            == after.bid_deals().take(10) && q.spread == after.ask_deals()[0].p
            - after.bid_deals()[0].p
    } else {
        r is None
    }
}

/// Applying the oldest update of the buffer `fed` to the book `before` gave
/// the book `after`, the buffer `rest` and the quote `r`: nothing changes
/// when `fed` is empty; otherwise its oldest update leaves and is applied.
pub open spec fn applied_next(
    before: BookView,
    fed: Seq<DepthUpdate>,
    after: BookView,
    rest: Seq<DepthUpdate>,
    r: Option<Quote>,
) -> bool {
    if fed.len() == 0 {
        &&& r is None
        &&& after == before
        &&& rest == fed
    } else {
        &&& rest == fed.drop_first()
        &&& update_state(before, after, fed[0])
        &&& applied_outcome(before, after, fed[0], r)
    }
}

/// `r` is the error for a depth buffer whose channel failed.
pub open spec fn is_buffer_error<T>(r: Result<T, ErrorHotPath>) -> bool {
    r matches Err(ErrorHotPath::OrderBook(s)) && s@ == "buffer error"@
}

impl OrderBook {
    /// Moves at most one update waiting in the depth channel into the depth
    /// buffer; fails once the channel is empty and disconnected.
    pub fn consume_depths(&mut self) -> (r: Result<(), ErrorHotPath>)
        requires
            old(self).wf(),
        ensures
            final(self).wf(),
            final(self)@ == old(self)@,
            final(self).pending_capacity() == old(self).pending_capacity(),
            r is Ok ==> fed_from(old(self).pending(), old(self).pending_capacity(), final(self).pending()),
            r is Err ==> is_buffer_error(r) && final(self).pending() == old(self).pending(),
    {
        let buffer_consume_result = self.ring_buffer.consume();
        match buffer_consume_result {
            Ok(()) => Ok(()),
            Err(_) => Err(ErrorHotPath::OrderBook(String::from_str("buffer error"))),
        }
    }

    /// Takes the oldest waiting depth update, if any, and applies it. An
    /// update that fails is dropped; the quote it would have carried is then
    /// absent.
    pub fn apply_next_depth(&mut self) -> (r: Option<Quote>)
        requires
            old(self).wf(),
        ensures
            final(self).wf(),
            final(self).pending_capacity() == old(self).pending_capacity(),
            applied_next(old(self)@, old(self).pending(), final(self)@, final(self).pending(), r),
            r matches Some(q) ==> q.spread == q.ask_deals@[0].p - q.bid_deals@[0].p,
    {
        match self.ring_buffer.pop_depth() {
            Some(depth_update) => {
                match self.update_book(depth_update) {
                    Ok(quote) => quote,
                    Err(_) => None,
                }
            },
            None => None,
        }
    }

    /// One step of processing: pulls at most one update from the depth
    /// channel into the buffer, then applies the oldest buffered update.
    /// Fails, changing nothing, once the depth channel is empty and
    /// disconnected.
    pub fn process_depth(&mut self) -> (r: Result<Option<Quote>, ErrorHotPath>)
        requires
            old(self).wf(),
        ensures
            final(self).wf(),
            final(self).pending_capacity() == old(self).pending_capacity(),
            r is Err ==> is_buffer_error(r) && final(self)@ == old(self)@ && final(self).pending()
                == old(self).pending(),
            r is Ok ==> exists|fed: Seq<DepthUpdate>|
                #[trigger] fed_from(old(self).pending(), old(self).pending_capacity(), fed)
                    && applied_next(old(self)@, fed, final(self)@, final(self).pending(), r->Ok_0),
            r matches Ok(Some(q)) ==> q.spread == q.ask_deals@[0].p - q.bid_deals@[0].p,
    {
        let ghost before = self.pending();
        match self.consume_depths() {
            Ok(()) => {
                let ghost fed = self.pending();
                let ghost mid = self@;
                let quote = self.apply_next_depth();
                proof {
                    assert(fed_from(before, self.pending_capacity(), fed));
                    assert(applied_next(mid, fed, self@, self.pending(), quote));
                }
                Ok(quote)
            },
            Err(e) => Err(e),
        }
    }

    /// Whether a depth snapshot has to be requested before more updates are
    /// applied.
    pub fn snapshot_due(&self) -> (r: bool)
        ensures
            r == self@.snapshot_pending,
    {
        self.trigger_depth_snapshots
    }

    /// Records that the depth snapshot was requested: none is pending any
    /// more, and quoting stays off while the snapshot's updates arrive.
    pub fn snapshot_requested(&mut self)
        requires
            old(self).wf(),
        ensures
            final(self).wf(),
            final(self)@ == (BookView { snapshot_pending: false, quoting: false, ..old(self)@ }),
            final(self).pending() == old(self).pending(),
            final(self).pending_capacity() == old(self).pending_capacity(),
    {
        self.trigger_depth_snapshots = false;
        self.run_quote = false;
    }

    /// The key ask traversals start from.
    pub fn best_deal_asks_level(&self) -> (r: u64)
        ensures
            r == self@.best_ask,
    {
        self.best_deal_asks_level
    }

    /// The key bid traversals start from.
    pub fn best_deal_bids_level(&self) -> (r: u64)
        ensures
            r == self@.best_bid,
    {
        self.best_deal_bids_level
    }

    /// The step between built levels.
    pub fn level_diff(&self) -> (r: u64)
        ensures
            r == self@.tick,
    {
        self.level_diff
    }

    /// The lowest key of the book.
    pub fn lowest_level(&self) -> (r: u64)
        ensures
            r == self@.lowest,
    {
        self.lowest_level
    }

    /// The highest key of the book.
    pub fn highest_level(&self) -> (r: u64)
        ensures
            r == self@.highest,
    {
        self.highest_level
    }

    /// The ask level under key `price`, if any.
    pub fn ask_level(&self, price: u64) -> (r: Option<Level>)
        ensures
            self@.asks.contains_key(price) ==> r == Some(self@.asks[price]),
            !self@.asks.contains_key(price) ==> r is None,
    {
        level_at(&self.asks, price)
    }

    /// The bid level under key `price`, if any.
    pub fn bid_level(&self, price: u64) -> (r: Option<Level>)
        ensures
            self@.bids.contains_key(price) ==> r == Some(self@.bids[price]),
            !self@.bids.contains_key(price) ==> r is None,
    {
        level_at(&self.bids, price)
    }

    /// Moves the key ask traversals start from.
    pub fn set_best_deal_asks_level(&mut self, level: u64)
        requires
            old(self).wf(),
        ensures
            final(self).wf(),
            final(self)@ == (BookView { best_ask: level, ..old(self)@ }),
            final(self).pending() == old(self).pending(),
            final(self).pending_capacity() == old(self).pending_capacity(),
    {
        self.best_deal_asks_level = level;
    }

    /// Moves the key bid traversals start from.
    pub fn set_best_deal_bids_level(&mut self, level: u64)
        requires
            old(self).wf(),
        ensures
            final(self).wf(),
            final(self)@ == (BookView { best_bid: level, ..old(self)@ }),
            final(self).pending() == old(self).pending(),
            final(self).pending_capacity() == old(self).pending_capacity(),
    {
        self.best_deal_bids_level = level;
    }

    /// Records a new step between levels; the built levels stay as they are.
    pub fn set_level_diff(&mut self, level_diff: u64)
        requires
            old(self).wf(),
        ensures
            final(self).wf(),
            final(self)@ == (BookView { tick: level_diff, ..old(self)@ }),
            final(self).pending() == old(self).pending(),
            final(self).pending_capacity() == old(self).pending_capacity(),
    {
        self.level_diff = level_diff;
    }

    /// Turns quoting on applied depth updates on or off.
    pub fn set_run_quote(&mut self, on: bool)
        requires
            old(self).wf(),
        ensures
            final(self).wf(),
            final(self)@ == (BookView { quoting: on, ..old(self)@ }),
            final(self).pending() == old(self).pending(),
            final(self).pending_capacity() == old(self).pending_capacity(),
    {
        self.run_quote = on;
    }

    /// Marks a depth snapshot as pending, or not.
    pub fn set_trigger_depth_snapshots(&mut self, on: bool)
        requires
            old(self).wf(),
        ensures
            final(self).wf(),
            final(self)@ == (BookView { snapshot_pending: on, ..old(self)@ }),
            final(self).pending() == old(self).pending(),
            final(self).pending_capacity() == old(self).pending_capacity(),
    {
        self.trigger_depth_snapshots = on;
    }
}


/// Law: after any depth update a level lists its liquidity largest first.
pub proof fn law_level_largest_first(nodes: Seq<LiquidityNode>, l: u8, q: u64)
    requires
        nodes.len() == 2,
    ensures
        updated_nodes(nodes, l, q).len() == 2,
        updated_nodes(nodes, l, q)[0].q >= updated_nodes(nodes, l, q)[1].q,
{
}

/// Law: a level reads back what a depth update wrote. When location `l` is
/// one of the level's two locations, afterwards that location holds `q`; the
/// level's locations stay the same, and the other location's quantity is kept.
pub proof fn law_update_then_read(nodes: Seq<LiquidityNode>, l: u8, q: u64)
    requires
        nodes.len() == 2,
        nodes[0].l != nodes[1].l,
        nodes[0].l == l || nodes[1].l == l,
    ensures
        ({
            let after = updated_nodes(nodes, l, q);
            &&& after[0] == (LiquidityNode { q, l }) || after[1] == (LiquidityNode { q, l })
            &&& after.to_set() == set![LiquidityNode { q, l }, if nodes[0].l == l {
                nodes[1]
            } else {
                nodes[0]
            }]
        }),
{
    let after = updated_nodes(nodes, l, q);
    assert(after.to_set() =~= set![LiquidityNode { q, l }, if nodes[0].l == l {
        nodes[1]
    } else {
        nodes[0]
    }]) by {
        assert(after.to_set().contains(after[0]));
        assert(after.to_set().contains(after[1]));
    }
}

/// The side of `book` that depth updates with `k` touch: asks for 0, bids
/// otherwise.
pub open spec fn side_of(book: BookView, k: u8) -> Map<u64, Level> {
    if k == 0 {
        book.asks
    } else {
        book.bids
    }
}

/// Law: the book reads back what a depth update wrote. When update `d`
/// lands on the level under key `d.p` and that level lists location `d.l`
/// beside one other location, the level then lists `d.l` with quantity
/// `d.q`, keeps its price, and every other level of both sides is unchanged.
pub proof fn law_book_update_then_read(before: BookView, after: BookView, d: DepthUpdate)
    requires
        d.k <= 1,
        update_lands(before, d),
        update_state(before, after, d),
        side_of(before, d.k)[d.p].deque@[0].l != side_of(before, d.k)[d.p].deque@[1].l,
        side_of(before, d.k)[d.p].deque@[0].l == d.l || side_of(before, d.k)[d.p].deque@[1].l
            == d.l,
    ensures
        side_of(after, d.k).contains_key(d.p),
        side_of(after, d.k)[d.p].price == side_of(before, d.k)[d.p].price,
        side_of(after, d.k)[d.p].deque@.contains(LiquidityNode { q: d.q, l: d.l }),
        forall|k: u64|
            k != d.p ==> side_of(after, d.k).contains_key(k) == side_of(before, d.k).contains_key(k)
                && (side_of(before, d.k).contains_key(k) ==> #[trigger] side_of(after, d.k)[k]
                == side_of(before, d.k)[k]),
        side_of(after, (1 - d.k) as u8) == side_of(before, (1 - d.k) as u8),
{
    let nodes = side_of(before, d.k)[d.p].deque@;
    law_update_then_read(nodes, d.l, d.q);
    let read = updated_nodes(nodes, d.l, d.q);
    assert(read[0] == (LiquidityNode { q: d.q, l: d.l }) || read[1] == (LiquidityNode {
        q: d.q,
        l: d.l,
    }));
}

/// Law: an ask traversal from key `level` only meets liquidity: every deal
/// has a quantity, lies between `level` and `highest`, and the deals come
/// cheapest first.
pub proof fn law_ask_deals_ordered(book: Map<u64, Level>, level: int, highest: int)
    ensures
        ({
            let all = ask_deals_from(book, level, highest);
            &&& forall|i: int| 0 <= i < all.len() ==> #[trigger] all[i].q != 0
            &&& forall|i: int| 0 <= i < all.len() ==> level <= #[trigger] all[i].p <= highest
            &&& forall|i: int, j: int| 0 <= i < j < all.len() ==> all[i].p <= all[j].p
        }),
    decreases (if level > highest { 0 } else { highest + 1 - level }),
{
    if level > highest || level < 0 {
    } else {
        lemma_cents_bounds(level + 10);
        let next = next_ask_level(level);
        law_ask_deals_ordered(book, next, highest);
        let head = level_deals(book, level);
        let rest = ask_deals_from(book, next, highest);
        let all = ask_deals_from(book, level, highest);
        assert(all == head + rest);
        assert forall|i: int| 0 <= i < head.len() implies #[trigger] head[i].p == level
            && head[i].q != 0 by {}
        assert forall|i: int| 0 <= i < all.len() implies #[trigger] all[i].q != 0 && level
            <= all[i].p <= highest by {
            if i >= head.len() {
                assert(all[i] == rest[i - head.len()]);
            } else {
                assert(all[i] == head[i]);
            }
        }
        assert forall|i: int, j: int| 0 <= i < j < all.len() implies all[i].p <= all[j].p by {
            if j < head.len() {
                assert(all[i] == head[i] && all[j] == head[j]);
            } else if i < head.len() {
                assert(all[i] == head[i] && all[j] == rest[j - head.len()]);
            } else {
                assert(all[i] == rest[i - head.len()] && all[j] == rest[j - head.len()]);
            }
        }
    }
}

/// Law: a bid traversal from key `level` only meets liquidity: every deal
/// has a quantity, lies between `lowest` and `level`, and the deals come
/// dearest first.
pub proof fn law_bid_deals_ordered(book: Map<u64, Level>, level: int, lowest: int)
    ensures
        ({
            let all = bid_deals_from(book, level, lowest);
            &&& forall|i: int| 0 <= i < all.len() ==> #[trigger] all[i].q != 0
            &&& forall|i: int| 0 <= i < all.len() ==> lowest <= #[trigger] all[i].p <= level
            &&& forall|i: int, j: int| 0 <= i < j < all.len() ==> all[i].p >= all[j].p
        }),
    decreases level,
{
    if level < lowest || level < 0 {
    } else if level < 10 {
        let all = bid_deals_from(book, level, lowest);
        assert forall|i: int| 0 <= i < all.len() implies #[trigger] all[i].p == level
            && all[i].q != 0 by {}
    } else {
        lemma_cents_bounds(level - 10);
        let next = next_bid_level(level);
        law_bid_deals_ordered(book, next, lowest);
        let head = level_deals(book, level);
        let rest = bid_deals_from(book, next, lowest);
        let all = bid_deals_from(book, level, lowest);
        assert(all == head + rest);
        assert forall|i: int| 0 <= i < head.len() implies #[trigger] head[i].p == level
            && head[i].q != 0 by {}
        assert forall|i: int| 0 <= i < all.len() implies #[trigger] all[i].q != 0 && lowest
            <= all[i].p <= level by {
            if i >= head.len() {
                assert(all[i] == rest[i - head.len()]);
            } else {
                assert(all[i] == head[i]);
            }
        }
        assert forall|i: int, j: int| 0 <= i < j < all.len() implies all[i].p >= all[j].p by {
            if j < head.len() {
                assert(all[i] == head[i] && all[j] == head[j]);
            } else if i < head.len() {
                assert(all[i] == head[i] && all[j] == rest[j - head.len()]);
            } else {
                assert(all[i] == rest[i - head.len()] && all[j] == rest[j - head.len()]);
            }
        }
    }
}

/// Law: a quote's spread is the price of its first ask deal minus the price
/// of its first bid deal, and those are the best deal of each side: the
/// cheapest ask and the dearest bid the walks met. This holds of every
/// quote a book gives, whether from `run_quote` or from an applied update.
pub proof fn law_quote_spread(book: BookView, q: Quote)
    requires
        quoted(book.ask_deals(), book.bid_deals(), Ok(Some(q))) || quote_from(
            book.ask_deals(),
            book.bid_deals(),
            Ok(q),
        ),
    ensures
        q.spread == q.ask_deals@[0].p - q.bid_deals@[0].p,
        q.ask_deals@[0] == book.ask_deals()[0],
        q.bid_deals@[0] == book.bid_deals()[0],
        forall|i: int| 0 <= i < 10 ==> q.ask_deals@[0].p <= #[trigger] q.ask_deals@[i].p,
        forall|i: int| 0 <= i < 10 ==> q.bid_deals@[0].p >= #[trigger] q.bid_deals@[i].p,
{
    law_ask_deals_ordered(book.asks, book.best_ask as int, book.highest as int);
    law_bid_deals_ordered(book.bids, book.best_bid as int, book.lowest as int);
    assert(book.ask_deals().len() >= 10 && book.bid_deals().len() >= 10);
    assert(q.ask_deals@[0] == book.ask_deals().take(10)[0]);
    assert(q.bid_deals@[0] == book.bid_deals().take(10)[0]);
}

/// Law: a quote never lists a deal without liquidity, and its ask deals come
/// cheapest first and its bid deals dearest first.
pub proof fn law_quote_deals(book: BookView, q: Quote)
    requires
        quoted(book.ask_deals(), book.bid_deals(), Ok(Some(q))),
    ensures
        forall|i: int| 0 <= i < 10 ==> #[trigger] q.ask_deals@[i].q != 0,
        forall|i: int| 0 <= i < 10 ==> #[trigger] q.bid_deals@[i].q != 0,
        forall|i: int, j: int| 0 <= i < j < 10 ==> q.ask_deals@[i].p <= q.ask_deals@[j].p,
        forall|i: int, j: int| 0 <= i < j < 10 ==> q.bid_deals@[i].p >= q.bid_deals@[j].p,
{
    law_ask_deals_ordered(book.asks, book.best_ask as int, book.highest as int);
    law_bid_deals_ordered(book.bids, book.best_bid as int, book.lowest as int);
    assert(book.ask_deals().len() >= 10 && book.bid_deals().len() >= 10);
}

} // verus!
