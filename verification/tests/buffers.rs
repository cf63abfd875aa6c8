use orderbook_quoter::config::RingBufferConfig;
use orderbook_quoter::objects::DepthUpdate;
use orderbook_quoter::ring_buffer::{BufferError, Received, RecvFailure, RingBuffer};
use orderbook_quoter::stream::{
    drain_step, interleave, ExchangeWSBuffer, SnapshotPulls, message_format, poll_outcome, snapshot_read, Delivery, SnapshotRead, serves_snapshots, snapshot_endpoint, stream_outcome,
    ExchangeStreamBuffers, MessageFormat, WSStreamState,
};
use orderbook_quoter::errors::{ErrorHotPath, ExchangeStreamError};

fn depth(k: u8, p: u64) -> DepthUpdate {
    DepthUpdate { k, p, q: 1_000, l: 1 }
}

fn ring(size: usize) -> (RingBuffer, crossbeam_channel::Sender<DepthUpdate>) {
    RingBuffer::new(&RingBufferConfig { ring_buffer_size: size, channel_buffer_size: 4 })
}

#[test]
fn push_back_drops_the_oldest_when_full() {
    let (mut rb, _tx) = ring(2);
    rb.push_back(depth(0, 1));
    rb.push_back(depth(0, 2));
    rb.push_back(depth(0, 3));
    assert_eq!(rb.pop_depth(), Some(depth(0, 2)));
    assert_eq!(rb.pop_depth(), Some(depth(0, 3)));
    assert_eq!(rb.pop_depth(), None);
}

#[test]
fn push_front_drops_the_newest_when_full() {
    let (mut rb, _tx) = ring(2);
    rb.push_back(depth(0, 1));
    rb.push_back(depth(0, 2));
    rb.push_front(depth(0, 9));
    assert_eq!(rb.pop_depth(), Some(depth(0, 9)));
    assert_eq!(rb.pop_depth(), Some(depth(0, 1)));
    assert_eq!(rb.pop_depth(), None);
}

#[test]
fn zero_sized_buffer_keeps_growing() {
    let (mut rb, _tx) = ring(0);
    rb.push_back(depth(0, 1));
    rb.push_back(depth(0, 2));
    assert_eq!(rb.pop_depth(), Some(depth(0, 1)));
    assert_eq!(rb.pop_depth(), Some(depth(0, 2)));
}

#[test]
fn consume_moves_one_update_from_the_channel() {
    let (mut rb, tx) = ring(4);
    assert!(rb.consume().is_ok());
    assert_eq!(rb.pop_depth(), None);
    tx.send(depth(1, 5)).unwrap();
    tx.send(depth(1, 6)).unwrap();
    assert!(rb.consume().is_ok());
    assert_eq!(rb.pop_depth(), Some(depth(1, 5)));
    drop(tx);
    assert!(rb.consume().is_ok());
    assert_eq!(rb.pop_depth(), Some(depth(1, 6)));
    match rb.consume() {
        Err(e @ BufferError::Failed(RecvFailure::Disconnected)) => assert_eq!(
            e.message(),
            "BufferError::Failed: receiving on an empty and disconnected channel"
        ),
        _ => panic!("expected a disconnected channel"),
    }
}

#[test]
fn absorb_handles_each_outcome() {
    let (mut rb, _tx) = ring(1);
    assert!(rb.absorb(Received::Empty).is_ok());
    assert!(rb.absorb(Received::Depth(depth(0, 7))).is_ok());
    assert!(rb.absorb(Received::Depth(depth(0, 8))).is_ok());
    assert!(rb.absorb(Received::Disconnected).is_err());
    assert_eq!(rb.pop_depth(), Some(depth(0, 8)));
    assert_eq!(
        BufferError::Failed(RecvFailure::Empty).message(),
        "BufferError::Failed: receiving on an empty channel"
    );
}

#[test]
fn interleave_alternates_then_appends_the_rest() {
    let a = vec![depth(0, 1), depth(0, 2), depth(0, 3)];
    let b = vec![depth(1, 11), depth(1, 12)];
    let woven = interleave(&a, &b);
    let prices: Vec<u64> = woven.iter().map(|d| d.p).collect();
    assert_eq!(prices, vec![1, 11, 2, 12, 3]);
    let woven = interleave(&b, &a);
    let prices: Vec<u64> = woven.iter().map(|d| d.p).collect();
    assert_eq!(prices, vec![11, 1, 12, 2, 3]);
    assert!(interleave(&vec![], &vec![]).is_empty());
}

#[test]
fn websocket_depths_are_held_back_during_a_snapshot() {
    let mut buffers = ExchangeStreamBuffers::new();
    buffers.stage_message(&vec![depth(0, 1)], &vec![depth(1, 2)]);
    buffers.begin_snapshot();
    buffers.push_snapshot_depth(depth(0, 100));
    buffers.stage_message(&vec![depth(0, 3), depth(0, 4)], &vec![depth(1, 5)]);
    // held back: 3, 5, 4; outgoing: 1, 2, 100
    buffers.push_buffered_ws_depths();
    let mut order = Vec::new();
    while let Some(d) = buffers.next_depth() {
        order.push(d.p);
    }
    // outgoing became 1, 2, 100, 4, 5, 3 and leaves from the back
    assert_eq!(order, vec![3, 5, 4, 100, 2, 1]);
}

#[test]
fn sequence_depths_copies_in_order() {
    let mut buffers = ExchangeStreamBuffers::new();
    buffers.begin_snapshot();
    buffers.stage_message(&vec![depth(0, 1), depth(0, 2)], &vec![]);
    buffers.sequence_depths();
    assert_eq!(buffers.next_depth().map(|d| d.p), Some(2));
    assert_eq!(buffers.next_depth().map(|d| d.p), Some(1));
    assert_eq!(buffers.next_depth(), None);
}

#[test]
fn forward_depth_sends_the_last_queued_update() {
    let (tx, rx) = crossbeam_channel::bounded::<DepthUpdate>(1);
    let mut buffers = ExchangeStreamBuffers::new();
    assert!(buffers.forward_depth(&tx).is_none());
    buffers.push_snapshot_depth(depth(0, 1));
    buffers.push_snapshot_depth(depth(0, 2));
    buffers.push_snapshot_depth(depth(0, 3));
    assert!(buffers.forward_depth(&tx).is_none());
    assert_eq!(rx.try_recv().unwrap(), depth(0, 3));
    assert!(buffers.forward_depth(&tx).is_none());
    // the channel is full now: the refused update stays to leave next
    match buffers.forward_depth(&tx) {
        Some(WSStreamState::SenderError) => {}
        other => panic!("expected a sender error, got {:?}", other),
    }
    assert_eq!(rx.try_recv().unwrap(), depth(0, 2));
    assert!(buffers.forward_depth(&tx).is_none());
    assert_eq!(rx.try_recv().unwrap(), depth(0, 1));
    assert_eq!(buffers.next_depth(), None);
    drop(rx);
    // with the order book gone the update is dropped
    buffers.push_snapshot_depth(depth(0, 4));
    assert!(matches!(buffers.forward_depth(&tx), Some(WSStreamState::SenderError)));
    assert_eq!(buffers.next_depth(), None);
}

#[test]
fn delivery_outcomes_settle() {
    let mut buffers = ExchangeStreamBuffers::new();
    assert!(buffers.settle_delivery(Delivery::Delivered).is_none());
    assert_eq!(buffers.next_depth(), None);
    assert!(matches!(buffers.settle_delivery(Delivery::Full(depth(0, 5))), Some(WSStreamState::SenderError)));
    assert_eq!(buffers.next_depth(), Some(depth(0, 5)));
    assert!(matches!(buffers.settle_delivery(Delivery::Disconnected(depth(0, 6))), Some(WSStreamState::SenderError)));
    assert_eq!(buffers.next_depth(), None);
}

#[test]
fn stream_outcomes() {
    assert!(stream_outcome(Some(WSStreamState::Success)).is_ok());
    assert!(stream_outcome(Some(WSStreamState::WaitingForDepth)).is_ok());
    match stream_outcome(Some(WSStreamState::WSError("closed".to_string()))) {
        Err(ErrorHotPath::ExchangeWSError(s)) => assert_eq!(s, "closed"),
        _ => panic!(),
    }
    for state in [None, Some(WSStreamState::SenderError), Some(WSStreamState::BufferFull)] {
        match stream_outcome(state) {
            Err(ErrorHotPath::ExchangeWSError(s)) => assert_eq!(s, "tbd"),
            _ => panic!(),
        }
    }
    assert_eq!(WSStreamState::FailedStream.describe(), "Failed Stream");
    assert_eq!(WSStreamState::WSError("x".to_string()).describe(), "WebSocket Error: x");
}

#[test]
fn exchange_formats_and_endpoints() {
    assert_eq!(message_format(1), Some(MessageFormat::Binance));
    assert_eq!(message_format(2), Some(MessageFormat::Binance));
    assert_eq!(message_format(3), Some(MessageFormat::ByBit));
    assert_eq!(message_format(4), None);
    assert!(serves_snapshots(2) && !serves_snapshots(3));
    assert_eq!(snapshot_endpoint("http://127.0.0.1:9501"), "http://127.0.0.1:9501/depths");
}

#[test]
fn snapshot_responses_by_exchange() {
    assert_eq!(snapshot_read(1, 200), SnapshotRead::Parse);
    assert_eq!(snapshot_read(1, 503), SnapshotRead::BadStatus);
    assert_eq!(snapshot_read(2, 503), SnapshotRead::Parse);
    assert_eq!(snapshot_read(3, 200), SnapshotRead::NoSnapshot);
}

#[test]
fn poll_outcomes() {
    assert!(poll_outcome(Some(WSStreamState::Success)).is_ok());
    assert!(poll_outcome(Some(WSStreamState::WaitingForDepth)).is_ok());
    for state in [None, Some(WSStreamState::WSError("closed".to_string())), Some(WSStreamState::SenderError)] {
        match poll_outcome(state) {
            Err(ExchangeStreamError::ExchangeWSError(s)) => assert_eq!(s, "tbd"),
            _ => panic!("expected a websocket error"),
        }
    }
}

#[test]
fn websocket_client_buffer_pairs_and_drains() {
    let (tx, rx) = crossbeam_channel::bounded::<DepthUpdate>(2);
    let mut buffer = ExchangeWSBuffer::new();
    buffer.stage_message(&vec![depth(0, 1), depth(0, 2), depth(0, 3)], &vec![depth(1, 11), depth(1, 12)]);
    // pairs: 1, 11, 2, 12; the unpaired 3 is dropped
    assert!(buffer.drain(&tx).is_none());
    // the channel held two; the other two were refused and dropped
    assert_eq!(rx.try_recv().unwrap().p, 1);
    assert_eq!(rx.try_recv().unwrap().p, 11);
    assert!(rx.try_recv().is_err());
    assert!(buffer.drain(&tx).is_none());
    drop(rx);
    buffer.stage_message(&vec![depth(0, 5)], &vec![depth(1, 15)]);
    assert!(matches!(buffer.drain(&tx), Some(WSStreamState::SenderError)));
    // the second of the pair still waits
    assert!(matches!(buffer.drain(&tx), Some(WSStreamState::SenderError)));
    assert!(buffer.drain(&tx).is_none());
}

#[test]
fn draining_an_empty_buffer_reports_nothing() {
    let (tx, rx) = crossbeam_channel::bounded::<DepthUpdate>(1);
    drop(rx);
    let mut buffer = ExchangeWSBuffer::new();
    assert!(buffer.drain(&tx).is_none());
    assert!(drain_step(Delivery::Delivered).is_none());
    assert!(drain_step(Delivery::Full(depth(0, 1))).is_none());
    assert!(matches!(drain_step(Delivery::Disconnected(depth(0, 1))), Some(WSStreamState::SenderError)));
}

#[test]
fn held_back_depths_replay_newest_first() {
    let mut buffers = ExchangeStreamBuffers::new();
    buffers.begin_snapshot();
    buffers.stage_message(&vec![depth(1, 1), depth(1, 2)], &vec![depth(0, 3)]);
    // held back, oldest first: 1, 3, 2
    buffers.push_snapshot_depth(depth(0, 100));
    assert_eq!(buffers.next_depth().map(|d| d.p), Some(100));
    buffers.end_snapshot();
    let mut order = Vec::new();
    while buffers.replay_held_depth() {
        order.push(buffers.next_depth().unwrap().p);
    }
    assert_eq!(order, vec![2, 3, 1]);
    buffers.stage_message(&vec![depth(1, 7)], &vec![]);
    assert_eq!(buffers.next_depth().map(|d| d.p), Some(7), "no longer held back");
}

#[test]
fn snapshot_pulls_stop_after_success_or_the_limit() {
    let mut pulls = SnapshotPulls::new(2);
    assert!(pulls.pull_again());
    pulls.pull_failed();
    assert!(pulls.pull_again());
    pulls.pull_failed();
    assert!(!pulls.pull_again());
    let mut pulls = SnapshotPulls::new(5);
    pulls.pull_failed();
    pulls.pull_succeeded();
    assert!(!pulls.pull_again());
    assert!(!SnapshotPulls::new(0).pull_again());
}
