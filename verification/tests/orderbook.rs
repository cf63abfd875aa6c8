use orderbook_quoter::config::RingBufferConfig;
use orderbook_quoter::errors::ErrorHotPath;
use orderbook_quoter::objects::{Deal, DepthUpdate};
use orderbook_quoter::orderbook::OrderBook;

// Prices and quantities are whole thousandths: 2700.63 is 2_700_630.

/// A book of levels 0.10 apart around 27000.0,
/// 5000 deep, filed under keys 2600.00 ..= 2800.01 in steps of 0.01.
fn consumer_default() -> OrderBook {
    let level_diff: u64 = 100;
    let mid_level: u64 = 27_000_000;
    let depth: u64 = 5000;
    let (mut orderbook, _depth_producer) = OrderBook::with_book(
        level_diff,
        mid_level,
        depth,
        &RingBufferConfig { ring_buffer_size: 300, channel_buffer_size: 300 },
    );
    orderbook.set_level_diff(10);
    orderbook
}

fn update(k: u8, p: u64, q: u64, l: u8) -> DepthUpdate {
    DepthUpdate { k, p, q, l }
}

#[test]
fn test_sorted_by_greatest_volume_bids_and_asks() {
    let mut orderbook = consumer_default();
    let price_level = 2_700_630;
    let _ = orderbook.bid_update(update(0, price_level, 30_000, 1));
    let _ = orderbook.bid_update(update(0, price_level, 40_000, 2));
    let level = orderbook.bid_level(price_level).unwrap();
    let decaying_volumes_check = level.deque.iter().scan(100_000u64, |past_value, deal| {
        let result = *past_value < deal.q;
        if !result {
            *past_value = deal.q;
        }
        Some(result)
    });
    for boolean in decaying_volumes_check {
        assert!(boolean == false)
    }
    let mut orderbook = consumer_default();
    let _ = orderbook.bid_update(update(0, price_level, 77_000, 1));
    let _ = orderbook.bid_update(update(0, price_level, 134_000, 2));
    let decaying_volumes_check = level.deque.iter().scan(100_000u64, |past_value, deal| {
        let result = *past_value < deal.q;
        if !result {
            *past_value = deal.q;
        }
        Some(result)
    });
    for boolean in decaying_volumes_check {
        assert!(boolean == false)
    }
}

#[test]
fn test_traverse_asks() {
    let mut orderbook = consumer_default();
    let best_deal = 2_700_000;
    let _ = orderbook.ask_update(update(0, best_deal, 40_000, 1));
    let _ = orderbook.ask_update(update(0, 2_700_630, 1_000, 2));
    let _ = orderbook.ask_update(update(0, 2_700_630, 77_000, 1));
    let _ = orderbook.ask_update(update(0, 2_700_640, 13_000, 1));
    let _ = orderbook.ask_update(update(0, 2_705_650, 25_000, 2));
    let _ = orderbook.ask_update(update(0, 2_705_660, 34_000, 1));
    let _ = orderbook.ask_update(update(0, 2_705_670, 23_000, 1));
    let _ = orderbook.ask_update(update(0, 2_705_680, 99_000, 1));
    let _ = orderbook.ask_update(update(0, 2_705_690, 70_000, 1));
    let _ = orderbook.ask_update(update(0, 2_709_700, 47_000, 1));
    let _ = orderbook.ask_update(update(0, 2_709_710, 23_000, 1));

    // (1) test that our traverse asks return deals with no errors
    orderbook.set_best_deal_asks_level(best_deal);
    orderbook.set_level_diff(100);
    let result = orderbook.traverse_asks();
    assert!(result.is_ok() == true);
    let deals: [Deal; 10] = result.unwrap();

    // (2) test that none of our deals have a quantity of 0
    assert!(deals.iter().any(|depth| depth.q == 0) != true);
}

#[test]
fn test_traverse_bids() {
    let mut orderbook = consumer_default();
    let best_deal = 2_700_000;
    let _ = orderbook.bid_update(update(1, best_deal, 30_000, 1));
    let _ = orderbook.bid_update(update(1, 2_699_630, 1_000, 2));
    let _ = orderbook.bid_update(update(1, 2_698_640, 77_000, 1));
    let _ = orderbook.bid_update(update(1, 2_650_330, 13_090, 1));
    let _ = orderbook.bid_update(update(1, 2_649_390, 25_220, 2));
    let _ = orderbook.bid_update(update(1, 2_649_200, 34_880, 1));
    let _ = orderbook.bid_update(update(1, 2_649_200, 23_000, 1));
    let _ = orderbook.bid_update(update(1, 2_648_330, 99_100, 1));
    let _ = orderbook.bid_update(update(1, 2_647_990, 70_220, 1));
    let _ = orderbook.bid_update(update(1, 2_645_330, 47_200, 1));
    let best_deal = 2_700_000;
    let result = orderbook.bid_update(update(1, 2_666_220, 23_330, 1));

    // (1) test that we have inserted depths with no issues
    assert!(result.is_ok() == true);

    // (2) test that our traverse asks return deals with no errors
    orderbook.set_best_deal_bids_level(best_deal);
    orderbook.set_level_diff(100);
    let result = orderbook.traverse_bids();
    assert!(result.is_ok() == true);
    let deals: [Deal; 10] = result.unwrap();

    // (3) test that none of our deals have a quantity of 0
    assert!(deals.iter().any(|depth| depth.q == 0) != true);
}

#[test]
fn built_book_covers_the_grid_keys() {
    let orderbook = consumer_default();
    assert_eq!(orderbook.lowest_level(), 2_600_000);
    assert_eq!(orderbook.highest_level(), 2_800_010);
    assert!(orderbook.ask_level(2_600_000).is_some());
    assert!(orderbook.ask_level(2_800_010).is_some());
    assert!(orderbook.ask_level(2_800_020).is_none());
    assert!(orderbook.ask_level(2_599_990).is_none());
    assert!(orderbook.bid_level(2_700_005).is_none());
    let level = orderbook.bid_level(2_700_000).unwrap();
    assert_eq!(level.price, 27_000_000);
    assert_eq!((level.deque[0].q, level.deque[0].l), (0, 1));
    assert_eq!((level.deque[1].q, level.deque[1].l), (0, 2));
}

#[test]
fn update_sorts_largest_first_and_keeps_ties() {
    let mut orderbook = consumer_default();
    orderbook.ask_update(update(0, 2_700_000, 5_000, 1)).unwrap();
    let level = orderbook.ask_level(2_700_000).unwrap();
    assert_eq!((level.deque[0].l, level.deque[0].q), (1, 5_000));
    orderbook.ask_update(update(0, 2_700_000, 9_000, 2)).unwrap();
    let level = orderbook.ask_level(2_700_000).unwrap();
    assert_eq!((level.deque[0].l, level.deque[0].q), (2, 9_000));
    assert_eq!((level.deque[1].l, level.deque[1].q), (1, 5_000));
    orderbook.ask_update(update(0, 2_700_000, 9_000, 1)).unwrap();
    let level = orderbook.ask_level(2_700_000).unwrap();
    assert_eq!((level.deque[0].l, level.deque[1].l), (2, 1));
    // a location the level does not hold changes nothing
    orderbook.ask_update(update(0, 2_700_000, 1, 7)).unwrap();
    let level = orderbook.ask_level(2_700_000).unwrap();
    assert_eq!((level.deque[0].q, level.deque[1].q), (9_000, 9_000));
}

#[test]
fn update_at_missing_level_is_an_error() {
    let mut orderbook = consumer_default();
    match orderbook.bid_update(update(1, 2_700_005, 1, 1)) {
        Err(ErrorHotPath::OrderBook(s)) => assert_eq!(s, "no level found"),
        _ => panic!("expected the missing level error"),
    }
    match orderbook.update_book(update(2, 2_700_000, 1, 1)) {
        Err(e) => assert_eq!(e.message(), "OrderBookError: 0 1 ASKS or 1 BIDS given by depth update"),
        Ok(_) => panic!("expected the side error"),
    }
}

#[test]
fn update_book_moves_best_levels() {
    let mut orderbook = consumer_default();
    orderbook.update_book(update(0, 2_700_100, 1_000, 1)).unwrap();
    assert_eq!(orderbook.best_deal_asks_level(), 2_700_100);
    orderbook.update_book(update(0, 2_700_050, 1_000, 1)).unwrap();
    assert_eq!(orderbook.best_deal_asks_level(), 2_700_100);
    // the bid best level only moves down, and starts at 0
    orderbook.update_book(update(1, 2_699_000, 1_000, 1)).unwrap();
    assert_eq!(orderbook.best_deal_bids_level(), 0);
    orderbook.set_best_deal_bids_level(2_699_500);
    orderbook.update_book(update(1, 2_699_000, 1_000, 1)).unwrap();
    assert_eq!(orderbook.best_deal_bids_level(), 2_699_000);
}

#[test]
fn traverse_without_ten_deals_reaches_the_top() {
    let mut orderbook = consumer_default();
    orderbook.ask_update(update(0, 2_799_990, 1_000, 1)).unwrap();
    orderbook.set_best_deal_asks_level(2_799_000);
    assert!(matches!(orderbook.traverse_asks(), Err(ErrorHotPath::OrderBookMaxTraversedReached)));
    orderbook.set_best_deal_bids_level(2_600_500);
    assert!(matches!(orderbook.traverse_bids(), Err(ErrorHotPath::OrderBookMaxTraversedReached)));
}

#[test]
fn run_quote_gives_deals_and_spread() {
    let mut orderbook = consumer_default();
    for i in 0..5u64 {
        orderbook.ask_update(update(0, 2_700_100 + 10 * i, 1_000 + i, 1)).unwrap();
        orderbook.ask_update(update(0, 2_700_100 + 10 * i, 2_000 + i, 2)).unwrap();
        orderbook.bid_update(update(1, 2_699_900 - 10 * i, 3_000 + i, 1)).unwrap();
        orderbook.bid_update(update(1, 2_699_900 - 10 * i, 500 + i, 2)).unwrap();
    }
    orderbook.set_best_deal_asks_level(2_700_000);
    orderbook.set_best_deal_bids_level(2_700_000);
    let quote = orderbook.run_quote().unwrap();
    assert_eq!(quote.spread, 200);
    assert_eq!(quote.ask_deals[0], Deal { p: 2_700_100, q: 2_000, l: 2 });
    assert_eq!(quote.ask_deals[1], Deal { p: 2_700_100, q: 1_000, l: 1 });
    assert_eq!(quote.ask_deals[9], Deal { p: 2_700_140, q: 1_004, l: 1 });
    assert_eq!(quote.bid_deals[0], Deal { p: 2_699_900, q: 3_000, l: 1 });
    assert_eq!(quote.bid_deals[9], Deal { p: 2_699_860, q: 504, l: 2 });
}

#[test]
fn quoting_update_yields_the_quote() {
    let mut orderbook = consumer_default();
    for i in 0..5u64 {
        orderbook.ask_update(update(0, 2_700_100 + 10 * i, 1_000, 1)).unwrap();
        orderbook.ask_update(update(0, 2_700_100 + 10 * i, 2_000, 2)).unwrap();
        orderbook.bid_update(update(1, 2_699_900 - 10 * i, 3_000, 1)).unwrap();
        orderbook.bid_update(update(1, 2_699_900 - 10 * i, 500, 2)).unwrap();
    }
    orderbook.set_best_deal_asks_level(2_700_000);
    orderbook.set_best_deal_bids_level(2_700_000);
    orderbook.set_run_quote(true);
    let quote = orderbook.update_book(update(0, 2_700_000, 7_000, 1)).unwrap().unwrap();
    assert_eq!(quote.ask_deals[0], Deal { p: 2_700_000, q: 7_000, l: 1 });
    assert_eq!(quote.spread, 100);
}

#[test]
fn depths_flow_from_channel_into_the_book() {
    let (mut orderbook, producer) = OrderBook::with_book(
        100,
        27_000_000,
        50,
        &RingBufferConfig { ring_buffer_size: 2, channel_buffer_size: 8 },
    );
    producer.send(update(0, 2_700_010, 5_000, 2)).unwrap();
    producer.send(update(1, 2_699_990, 6_000, 1)).unwrap();
    assert!(orderbook.process_depth().unwrap().is_none());
    assert!(orderbook.process_depth().unwrap().is_none());
    let ask = orderbook.ask_level(2_700_010).unwrap();
    assert_eq!((ask.deque[0].l, ask.deque[0].q), (2, 5_000));
    let bid = orderbook.bid_level(2_699_990).unwrap();
    assert_eq!((bid.deque[0].l, bid.deque[0].q), (1, 6_000));
    drop(producer);
    match orderbook.process_depth() {
        Err(ErrorHotPath::OrderBook(s)) => assert_eq!(s, "buffer error"),
        _ => panic!("a disconnected channel is a buffer error"),
    }
}

#[test]
fn snapshot_trigger_is_pending_until_requested() {
    let (mut orderbook, _producer) = OrderBook::with_book(
        100,
        27_000_000,
        10,
        &RingBufferConfig { ring_buffer_size: 4, channel_buffer_size: 4 },
    );
    assert!(!orderbook.snapshot_due());
    orderbook.set_trigger_depth_snapshots(true);
    orderbook.set_run_quote(true);
    assert!(orderbook.snapshot_due());
    orderbook.snapshot_requested();
    assert!(!orderbook.snapshot_due());
}
