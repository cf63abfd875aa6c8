use orderbook_quoter::binance;
use orderbook_quoter::controller::{Boot, ExchangeController};
use orderbook_quoter::errors::{ErrorHotPath, ErrorInitialState, ExchangeStreamError, OrderBookError};
use orderbook_quoter::market::{
    convert_to_binance, BinanceDepthUpdate, ByBitData, Data, HTTPSnapShotDepthResponseBinance,
    HTTPSnapShotDepthResponseByBit, WSDepthUpdateBinance, WSDepthUpdateByBit,
    WSOrderBookUpdateBinance, WSOrderBookUpdateByBit,
};
use orderbook_quoter::market_maker::MarketMaker;
use orderbook_quoter::objects::DepthUpdate;
use orderbook_quoter::order::{
    BinanceOrder, ByBitOrder, Order, OrderBookUpdateBinance, SnapShotDepthResponseBinance,
    SnapShotDepthResponseByBit,
};

fn pair(price: u64, quantity: u64) -> BinanceDepthUpdate {
    BinanceDepthUpdate { price, quantity }
}

#[test]
fn best_bid_ask_message_splits_into_two_sides() {
    let m = WSOrderBookUpdateBinance { b: 10, B: 11, a: 12, A: 13 };
    let (bid, ask) = m.order();
    assert_eq!(bid, DepthUpdate { k: 1, p: 10, q: 11, l: 1 });
    assert_eq!(ask, DepthUpdate { k: 0, p: 12, q: 13, l: 1 });
    let (bid, ask) = OrderBookUpdateBinance { b: 1, B: 2, a: 3, A: 4 }.split_update();
    assert_eq!(bid, Order { k: 1, p: 1, q: 2, l: 1 });
    assert_eq!(ask, Order { k: 0, p: 3, q: 4, l: 1 });
    let (bid, ask) = binance::OrderBookUpdateBinance { b: 5, B: 6, a: 7, A: 8 }.split_update();
    assert_eq!(bid, DepthUpdate { k: 1, p: 5, q: 6, l: 1 });
    assert_eq!(ask, DepthUpdate { k: 0, p: 7, q: 8, l: 1 });
}

#[test]
fn depth_messages_tag_bids_and_asks() {
    let m = WSDepthUpdateBinance {
        e: 1, E: 2, s: 3, U: 4, u: 5,
        b: vec![pair(100, 1), pair(99, 2)],
        a: vec![pair(101, 3)],
    };
    let (bids, asks) = m.depths(2);
    assert_eq!(bids, vec![
        DepthUpdate { k: 1, p: 100, q: 1, l: 2 },
        DepthUpdate { k: 1, p: 99, q: 2, l: 2 },
    ]);
    assert_eq!(asks, vec![DepthUpdate { k: 0, p: 101, q: 3, l: 2 }]);
    let snap = HTTPSnapShotDepthResponseBinance {
        retcode: None, lastUpdateId: 7, asks: vec![pair(5, 6)], bids: vec![pair(4, 7)],
    };
    let (bids, asks) = snap.depths(1);
    assert_eq!(bids, vec![DepthUpdate { k: 1, p: 4, q: 7, l: 1 }]);
    assert_eq!(asks, vec![DepthUpdate { k: 0, p: 5, q: 6, l: 1 }]);
    let snap = binance::HTTPSnapShotDepthResponseBinance {
        retcode: Some(0), lastUpdateId: 7, asks: vec![pair(5, 6)], bids: vec![pair(4, 7)],
    };
    let (asks, bids) = snap.orders();
    assert_eq!(asks, vec![DepthUpdate { k: 0, p: 5, q: 6, l: 1 }]);
    assert_eq!(bids, vec![DepthUpdate { k: 1, p: 4, q: 7, l: 1 }]);
}

#[test]
fn bybit_messages_tag_bids_and_asks() {
    let up = |price, quantity| WSOrderBookUpdateByBit { price, quantity };
    let m = WSDepthUpdateByBit {
        topic: "orderbook".to_string(),
        type_: "delta".to_string(),
        ts: 1,
        data: Data { s: "BTCUSDT".to_string(), b: vec![up(9, 1)], a: vec![up(10, 2), up(11, 3)], u: 1, seq: 2 },
    };
    let (bids, asks) = m.depths(3);
    assert_eq!(bids, vec![DepthUpdate { k: 1, p: 9, q: 1, l: 3 }]);
    assert_eq!(asks.len(), 2);
    assert_eq!(asks[1], DepthUpdate { k: 0, p: 11, q: 3, l: 3 });
    let snap = HTTPSnapShotDepthResponseByBit {
        retMsg: None,
        topic: "orderbook".to_string(),
        ts: 2,
        type_: "snapshot".to_string(),
        data: ByBitData { s: "BTCUSDT".to_string(), t: 3, a: vec![up(20, 1)], b: vec![up(19, 2)] },
    };
    let (bids, asks) = snap.depths(3);
    assert_eq!(bids, vec![DepthUpdate { k: 1, p: 19, q: 2, l: 3 }]);
    assert_eq!(asks, vec![DepthUpdate { k: 0, p: 20, q: 1, l: 3 }]);
}

#[test]
fn snapshot_orders_by_exchange() {
    let snap = SnapShotDepthResponseBinance {
        lastUpdateId: 1,
        bids: vec![BinanceOrder { price: 4, quantity: 1 }],
        asks: vec![BinanceOrder { price: 5, quantity: 2 }],
    };
    let (asks, bids) = snap.orders();
    assert_eq!(asks, vec![Order { k: 0, p: 5, q: 2, l: 1 }]);
    assert_eq!(bids, vec![Order { k: 1, p: 4, q: 1, l: 1 }]);
    let snap = SnapShotDepthResponseByBit {
        retCode: 0,
        retMsg: String::new(),
        topic: String::new(),
        ts: 0,
        type_: String::new(),
        data: orderbook_quoter::order::ByBitData {
            s: String::new(),
            t: 0,
            a: vec![ByBitOrder { price: 7, quantity: 3 }],
            b: vec![ByBitOrder { price: 6, quantity: 4 }],
        },
    };
    let (asks, bids) = snap.orders();
    assert_eq!(asks, vec![Order { k: 0, p: 7, q: 3, l: 0 }]);
    assert_eq!(bids, vec![Order { k: 1, p: 6, q: 4, l: 0 }]);
}

#[test]
fn default_messages() {
    let m = WSDepthUpdateBinance::default();
    assert_eq!(m.b, vec![pair(0, 0)]);
    assert_eq!(m.a, vec![pair(0, 0)]);
    assert_eq!(DepthUpdate::default(), DepthUpdate { k: 0, p: 0, q: 0, l: 0 });
}

#[test]
fn controller_hands_out_the_last_exchange_first() {
    let mut controller = match ExchangeController::new(vec![Some(Box::new("a")), Some(Box::new("b"))]) {
        Ok(controller) => controller,
        Err(_) => panic!("every exchange was built"),
    };
    assert_eq!(controller.exchanges(), 2);
    assert_eq!(controller.exchange().map(|e| *e), Some("b"));
    assert_eq!(controller.exchanges(), 1);
    assert_eq!(controller.exchange().map(|e| *e), Some("a"));
    assert!(controller.exchange().is_none());
}

#[test]
fn controller_refuses_a_failed_exchange() {
    match ExchangeController::new(vec![Some(Box::new("a")), None, Some(Box::new("c"))]) {
        Err(e) => assert_eq!(e.message(), "Exchange Controller Error"),
        Ok(_) => panic!("an exchange failed to build"),
    }
    match ExchangeController::<&str>::new(vec![]) {
        Ok(controller) => assert_eq!(controller.exchanges(), 0),
        Err(_) => panic!("no exchange is needed"),
    }
}

#[test]
fn market_maker_name() {
    assert_eq!(MarketMaker::new().agent(), "market-maker-strategy-tbd");
}

#[test]
fn error_messages() {
    assert_eq!(ErrorHotPath::OrderBook("no level found".to_string()).message(), "OrderBookError: no level found");
    assert_eq!(ErrorHotPath::ExchangeWSError("e".to_string()).message(), "Exchange WS Error: e");
    assert_eq!(ErrorHotPath::ExchangeWSReconnectError("e".to_string()).message(), "Exchange WS Reconnect Error: e");
    assert_eq!(ErrorHotPath::Serialization("e".to_string()).message(), "Serialization error: e");
    assert_eq!(ErrorHotPath::QuoterGRPCError("e".to_string()).message(), "Quoter GRPC Error: e");
    assert_eq!(ErrorHotPath::QuoteServerSinkError("e".to_string()).message(), "Quote Server Sink Error: e");
    assert_eq!(ErrorHotPath::ExchangeStreamSnapshot("e".to_string()).message(), "HTTPSnapshot error: e");
    assert_eq!(ErrorHotPath::ReceivedNonTextMessageFromExchange.message(), "ReceivedNonTextMessage");
    assert_eq!(ErrorHotPath::OrderBookNegativeLiquidity.message(), "NegativeQuantity");
    assert_eq!(ErrorHotPath::OrderBookMaxTraversedReached.message(), "MaxTraversedReached");
    assert_eq!(ErrorHotPath::OrderBookDealSendFail.message(), "DealSendFail");
    assert_eq!(OrderBookError::NoLevel.message(), "OrderBook no Level found");
    assert_eq!(OrderBookError::NegativeLiquidity.message(), "Negative liquidity detected");
    assert_eq!(OrderBookError::MaxTraversedReached.message(), "Maximum traversal limit reached");
}

#[test]
fn stream_errors_become_set_up_errors() {
    let cases = vec![
        (ExchangeStreamError::ExchangeController, "Exchange Controller Error"),
        (ExchangeStreamError::WSConnection("refused".to_string()), "WS Connection Error: refused"),
        (ExchangeStreamError::Snapshot("s".to_string()), "Exchange Snapshot error: s"),
        (ExchangeStreamError::ExchangeNoSnapshot("n".to_string()), "Exchange Snapshot error: n"),
        (ExchangeStreamError::ExchangeStreamSnapshot("h".to_string()), "Exchange Snapshot error: h"),
        (ExchangeStreamError::Deserialization("bad".to_string()), "Message Serialization Error: bad"),
        (
            ExchangeStreamError::HttpRequest("timeout".to_string()),
            "WS Connection Error: HTTP request error: timeout",
        ),
        (
            ExchangeStreamError::ExchangeWSError("x".to_string()),
            "WS Connection Error: Exchange WS Error: x",
        ),
        (
            ExchangeStreamError::ReceivedNonTextMessageFromExchange,
            "WS Connection Error: Received non-text message from exchange",
        ),
    ];
    for (err, expected) in cases {
        assert_eq!(ErrorInitialState::from(err).message(), expected);
    }
    assert_eq!(ErrorInitialState::ExchangeWSError("e".to_string()).message(), "Exchange WS Error: e");
    assert_eq!(
        ExchangeStreamError::ExchangeWSReconnectError("r".to_string()).message(),
        "Exchange WS Reconnect Error: r"
    );
}

#[test]
fn stub_messages_carry_updates_as_bids() {
    let updates = vec![
        DepthUpdate { k: 1, p: 2_700_630, q: 1_500, l: 2 },
        DepthUpdate { k: 0, p: 2_700_640, q: 250, l: 1 },
    ];
    let messages = convert_to_binance(&updates);
    assert_eq!(messages.len(), 1);
    let message = messages[0].clone();
    assert_eq!((message.e, message.E, message.s, message.U, message.u), (0, 0, 0, 0, 0));
    assert!(message.a.is_empty());
    assert_eq!(
        message.b,
        vec![
            BinanceDepthUpdate { price: 2_700_630, quantity: 1_500 },
            BinanceDepthUpdate { price: 2_700_640, quantity: 250 },
        ]
    );
    let (bids, asks) = message.depths(1);
    assert_eq!(bids.iter().map(|d| (d.p, d.q)).collect::<Vec<_>>(), vec![(2_700_630, 1_500), (2_700_640, 250)]);
    assert!(asks.is_empty());
    assert!(convert_to_binance(&vec![])[0].b.is_empty());
}

#[test]
fn boot_stops_at_the_first_failure() {
    let mut boot = Boot::new(3);
    assert_eq!(boot.next(), Some(0));
    boot.record(Ok(()));
    assert_eq!(boot.next(), Some(1));
    boot.record(Err(ErrorInitialState::WSConnection("refused".to_string())));
    assert_eq!(boot.next(), None, "the third exchange is not started");
    match boot.finish() {
        Err(e) => assert_eq!(e.message(), "WS Connection Error: refused"),
        Ok(()) => panic!("booting failed"),
    }
    let mut boot = Boot::new(2);
    while let Some(_) = boot.next() {
        boot.record(Ok(()));
    }
    assert!(boot.finish().is_ok());
}

#[test]
fn controller_counts_down_over_hand_outs() {
    let mut controller = match ExchangeController::new(vec![Some(Box::new(1)), Some(Box::new(2)), Some(Box::new(3))]) {
        Ok(controller) => controller,
        Err(_) => panic!("every exchange was built"),
    };
    for m in 1..=5usize {
        controller.exchange();
        assert_eq!(controller.exchanges(), 3 - m.min(3));
    }
}
