use orderbook_quoter::channel::{Channel, RecvPoll, SendPoll};
use orderbook_quoter::objects::DepthUpdate;
use std::sync::Arc;
use std::task::{Wake, Waker};

struct NoopWake;

impl Wake for NoopWake {
    fn wake(self: Arc<Self>) {}
}

fn waker() -> Waker {
    Waker::from(Arc::new(NoopWake))
}

fn depths(n: usize) -> Vec<DepthUpdate> {
    (0..n)
        .map(|i| DepthUpdate { k: (i % 2) as u8, p: 2_700_000 + i as u64 * 10, q: 1_000 + i as u64, l: 1 })
        .collect()
}

#[test]
fn receiver_closes_only_after_last_sender_drops() {
    let expected = depths(2);
    let mut ch: Channel<DepthUpdate, 4, 2> = Channel::new();
    let (tx1, rx) = ch.split();
    let tx2 = tx1.try_clone(&mut ch).unwrap();
    assert!(tx2.try_clone(&mut ch).is_none(), "S = 2 caps live senders");
    tx1.try_send(&mut ch, expected[0]).unwrap();
    tx1.release(&mut ch);
    let tx3 = tx2.try_clone(&mut ch).expect("slot freed by tx1");
    tx2.release(&mut ch);
    tx3.try_send(&mut ch, expected[1]).unwrap();
    tx3.release(&mut ch);
    let w = waker();
    assert!(matches!(rx.poll_recv(&mut ch, &w), RecvPoll::Item(d) if d == expected[0]));
    assert!(matches!(rx.poll_recv(&mut ch, &w), RecvPoll::Item(d) if d == expected[1]));
    assert!(matches!(rx.poll_recv(&mut ch, &w), RecvPoll::Closed));
}

#[test]
fn timeout_on_full_send_does_not_enqueue() {
    let expected = depths(2);
    let mut ch: Channel<DepthUpdate, 1, 4> = Channel::new();
    let (tx, rx) = ch.split();
    let w = waker();
    assert!(matches!(tx.poll_send(&mut ch, expected[0], &w), SendPoll::Sent));
    assert!(matches!(tx.poll_send(&mut ch, expected[1], &w), SendPoll::Full(d) if d == expected[1]));
    assert_eq!(rx.try_recv(&mut ch), Some(expected[0]));
    assert_eq!(rx.try_recv(&mut ch), None, "a full send must not have enqueued the second depth");
}

#[test]
fn values_come_out_in_the_order_they_went_in() {
    let expected = depths(20);
    let mut ch: Channel<DepthUpdate, 3, 4> = Channel::new();
    let (tx, rx) = ch.split();
    let mut got = Vec::new();
    for &d in &expected {
        if tx.try_send(&mut ch, d).is_err() {
            got.push(rx.try_recv(&mut ch).unwrap());
            tx.try_send(&mut ch, d).unwrap();
        }
    }
    while let Some(d) = rx.try_recv(&mut ch) {
        got.push(d);
    }
    assert_eq!(got, expected);
}

#[test]
fn send_to_a_closed_receiver_hands_the_value_back() {
    let d = depths(1)[0];
    let mut ch: Channel<DepthUpdate, 2, 4> = Channel::new();
    let (tx, rx) = ch.split();
    rx.close(&mut ch);
    assert_eq!(tx.try_send(&mut ch, d), Err(d));
    assert!(matches!(tx.poll_send(&mut ch, d, &waker()), SendPoll::Closed(v) if v == d));
}

#[test]
fn empty_receive_with_live_sender_waits() {
    let mut ch: Channel<DepthUpdate, 2, 4> = Channel::new();
    let (tx, rx) = ch.split();
    let w = waker();
    assert!(matches!(rx.poll_recv(&mut ch, &w), RecvPoll::Empty));
    tx.release(&mut ch);
    assert!(matches!(rx.poll_recv(&mut ch, &w), RecvPoll::Closed));
}

#[test]
fn clones_take_the_lowest_free_slot() {
    let mut ch: Channel<u32, 2, 3> = Channel::new();
    let (tx0, _rx) = ch.split();
    let tx1 = tx0.try_clone(&mut ch).unwrap();
    let tx2 = tx1.try_clone(&mut ch).unwrap();
    assert!(tx2.try_clone(&mut ch).is_none());
    tx1.release(&mut ch);
    let again = tx0.try_clone(&mut ch).unwrap();
    assert!(tx0.try_clone(&mut ch).is_none());
    again.try_send(&mut ch, 7).unwrap();
}

#[test]
fn sixty_four_senders_fit() {
    let mut ch: Channel<u32, 1, 64> = Channel::new();
    let (tx, _rx) = ch.split();
    let mut clones = Vec::new();
    for _ in 0..63 {
        clones.push(tx.try_clone(&mut ch).unwrap());
    }
    assert!(tx.try_clone(&mut ch).is_none());
    clones.pop().unwrap().release(&mut ch);
    assert!(tx.try_clone(&mut ch).is_some());
}

struct CountingWake(std::sync::atomic::AtomicUsize);

impl Wake for CountingWake {
    fn wake(self: Arc<Self>) {
        self.0.fetch_add(1, std::sync::atomic::Ordering::SeqCst);
    }
}

fn counting_waker() -> (Arc<CountingWake>, Waker) {
    let count = Arc::new(CountingWake(std::sync::atomic::AtomicUsize::new(0)));
    (count.clone(), Waker::from(count))
}

fn wakes(count: &Arc<CountingWake>) -> usize {
    count.0.load(std::sync::atomic::Ordering::SeqCst)
}

#[test]
fn recv_is_woken_by_a_send() {
    let d = depths(1)[0];
    let mut ch: Channel<DepthUpdate, 2, 4> = Channel::new();
    let (tx, rx) = ch.split();
    let (count, w) = counting_waker();
    assert!(matches!(rx.poll_recv(&mut ch, &w), RecvPoll::Empty));
    assert_eq!(wakes(&count), 0);
    tx.try_send(&mut ch, d).unwrap();
    assert_eq!(wakes(&count), 1, "the parked receiver is woken by the send");
    tx.try_send(&mut ch, d).unwrap();
    assert_eq!(wakes(&count), 1, "a woken receiver is not woken again");
    assert!(matches!(rx.poll_recv(&mut ch, &w), RecvPoll::Item(x) if x == d));
}

#[test]
fn full_send_is_woken_by_a_receive() {
    let d = depths(2);
    let mut ch: Channel<DepthUpdate, 1, 4> = Channel::new();
    let (tx, rx) = ch.split();
    let (count, w) = counting_waker();
    assert!(matches!(tx.poll_send(&mut ch, d[0], &w), SendPoll::Sent));
    assert!(matches!(tx.poll_send(&mut ch, d[1], &w), SendPoll::Full(_)));
    assert_eq!(wakes(&count), 0);
    assert_eq!(rx.try_recv(&mut ch), Some(d[0]));
    assert_eq!(wakes(&count), 1, "the parked sender is woken by the receive");
    assert!(matches!(tx.poll_send(&mut ch, d[1], &w), SendPoll::Sent));
}

#[test]
fn receiver_drop_wakes_parked_sender() {
    let d = depths(2);
    let mut ch: Channel<DepthUpdate, 1, 4> = Channel::new();
    let (tx, rx) = ch.split();
    let (count, w) = counting_waker();
    tx.try_send(&mut ch, d[0]).unwrap();
    assert!(matches!(tx.poll_send(&mut ch, d[1], &w), SendPoll::Full(_)));
    rx.close(&mut ch);
    assert_eq!(wakes(&count), 1, "closing the receiver wakes the parked sender");
    assert!(matches!(tx.poll_send(&mut ch, d[1], &w), SendPoll::Closed(x) if x == d[1]));
}

#[test]
fn last_sender_drop_wakes_parked_receiver() {
    let mut ch: Channel<DepthUpdate, 2, 4> = Channel::new();
    let (tx1, rx) = ch.split();
    let tx2 = tx1.try_clone(&mut ch).unwrap();
    let (count, w) = counting_waker();
    assert!(matches!(rx.poll_recv(&mut ch, &w), RecvPoll::Empty));
    tx1.release(&mut ch);
    assert_eq!(wakes(&count), 0, "a sender is still live");
    tx2.release(&mut ch);
    assert_eq!(wakes(&count), 1, "the last sender's release wakes the receiver");
    assert!(matches!(rx.poll_recv(&mut ch, &w), RecvPoll::Closed));
}

#[test]
fn k_sends_then_k_receives_round_trip() {
    let expected = depths(4);
    let mut ch: Channel<DepthUpdate, 4, 4> = Channel::new();
    let (tx, rx) = ch.split();
    for &d in &expected {
        assert!(tx.try_send(&mut ch, d).is_ok());
    }
    for &d in &expected {
        assert_eq!(rx.try_recv(&mut ch), Some(d));
    }
    assert_eq!(rx.try_recv(&mut ch), None);
    assert_eq!(tx.slot(), 0);
}
