//! The decisions of an exchange stream: where the depth updates of each
//! message go while a book snapshot is taken, in what order they leave for
//! the order book, and what each poll of the stream amounts to.
//!
//! The sockets, the HTTP client and the timers live with the caller; it feeds
//! each decoded message in and performs what the stream decides.

use crate::errors::{ErrorHotPath, ExchangeStreamError};
use crate::objects::DepthUpdate;
use crossbeam_channel::Sender as CrossbeamSender;
use crossbeam_channel::TrySendError;
use std::collections::VecDeque;
use vstd::prelude::*;

verus! {

broadcast use vstd::std_specs::vecdeque::group_vec_dequeue_axioms;

/// `a` and `b` taken in turn, starting with `a`; once one runs out, the rest
/// of the other follows.
pub open spec fn interleaved<T>(a: Seq<T>, b: Seq<T>) -> Seq<T>
    decreases a.len() + b.len(),
{
    if a.len() == 0 {
        b
    } else {
        seq![a[0]] + interleaved(b, a.drop_first())
    }
}

/// Takes `first` and `second` in turn, starting with `first`; once one runs
/// out, the rest of the other follows.
pub fn interleave(first: &Vec<DepthUpdate>, second: &Vec<DepthUpdate>) -> (r: Vec<DepthUpdate>)
    ensures
        r@ == interleaved(first@, second@),
{
    let a_len = first.len();
    let b_len = second.len();
    let mut out: Vec<DepthUpdate> = Vec::new();
    let mut i: usize = 0;
    let mut j: usize = 0;
    let mut first_turn = true;
    proof {
        assert(first@.skip(0) =~= first@);
        assert(second@.skip(0) =~= second@);
    }
    while i < a_len || j < b_len
        invariant
            a_len == first@.len(),
            b_len == second@.len(),
            i <= a_len,
            j <= b_len,
            interleaved(first@, second@) == out@ + (if first_turn {
                interleaved(first@.skip(i as int), second@.skip(j as int))
            } else {
                interleaved(second@.skip(j as int), first@.skip(i as int))
            }),
        decreases (a_len - i) + (b_len - j),
    {
        if first_turn {
            if i < a_len {
                proof {
                    assert(first@.skip(i as int).drop_first() =~= first@.skip(i + 1));
                    assert(first@.skip(i as int)[0] == first@[i as int]);
                }
                out.push(first[i]);
                i = i + 1;
                first_turn = false;
            } else {
                proof {
                    assert(second@.skip(j as int) =~= seq![second@[j as int]] + second@.skip(j + 1));
                    assert(first@.skip(i as int).len() == 0);
                }
                out.push(second[j]);
                j = j + 1;
            }
        } else {
            if j < b_len {
                proof {
                    assert(second@.skip(j as int).drop_first() =~= second@.skip(j + 1));
                    assert(second@.skip(j as int)[0] == second@[j as int]);
                }
                out.push(second[j]);
                j = j + 1;
                first_turn = true;
            } else {
                proof {
                    assert(first@.skip(i as int) =~= seq![first@[i as int]] + first@.skip(i + 1));
                    assert(second@.skip(j as int).len() == 0);
                }
                out.push(first[i]);
                i = i + 1;
            }
        }
        proof {
            assert(interleaved(first@, second@) =~= out@ + (if first_turn {
                interleaved(first@.skip(i as int), second@.skip(j as int))
            } else {
                interleaved(second@.skip(j as int), first@.skip(i as int))
            }));
        }
    }
    proof {
        assert(first@.skip(i as int).len() == 0);
        assert(second@.skip(j as int).len() == 0);
        assert(interleaved(first@, second@) =~= out@);
    }
    out
}

/// `s` back to front.
pub open spec fn reversed<T>(s: Seq<T>) -> Seq<T> {
    Seq::new(s.len(), |i: int| s[s.len() - 1 - i])
}

/// What one poll of an exchange stream reported.
#[derive(Debug)]
pub enum WSStreamState {
    /// The websocket failed; its error, as text.
    WSError(String),
    SenderError,
    FailedStream,
    FailedDeserialize,
    /// A message's depth updates found no room.
    BufferFull,
    Success,
    WaitingForDepth,
}

impl WSStreamState {
    /// The human-readable description of the state.
    pub fn describe(&self) -> (r: String)
        ensures
            r@ == (match *self {
                WSStreamState::WSError(s) => "WebSocket Error: "@ + s@,
                WSStreamState::SenderError => "Sender Error"@,
                WSStreamState::FailedStream => "Failed Stream"@,
                WSStreamState::FailedDeserialize => "Failed Deserialize"@,
                WSStreamState::BufferFull => "Buffer Full"@,
                WSStreamState::Success => "Success"@,
                WSStreamState::WaitingForDepth => "Waiting for Depth"@,
            }),
    {
        match self {
            WSStreamState::WSError(s) => String::from_str("WebSocket Error: ").concat(s.as_str()),
            WSStreamState::SenderError => String::from_str("Sender Error"),
            WSStreamState::FailedStream => String::from_str("Failed Stream"),
            WSStreamState::FailedDeserialize => String::from_str("Failed Deserialize"),
            WSStreamState::BufferFull => String::from_str("Buffer Full"),
            WSStreamState::Success => String::from_str("Success"),
            WSStreamState::WaitingForDepth => String::from_str("Waiting for Depth"),
        }
    }
}

/// What one run step of an exchange stream returns for what its poll
/// reported: success while the stream delivers or waits for depths, the
/// websocket's own error, and an error for anything else or a finished stream.
pub fn stream_outcome(state: Option<WSStreamState>) -> (r: Result<(), ErrorHotPath>)
    ensures
        match state {
            Some(WSStreamState::Success) | Some(WSStreamState::WaitingForDepth) => r is Ok,
            Some(WSStreamState::WSError(s)) => r matches Err(ErrorHotPath::ExchangeWSError(t))
                && t@ == s@,
            _ => r matches Err(ErrorHotPath::ExchangeWSError(t)) && t@ == "tbd"@,
        },
{
    match state {
        Some(WSStreamState::Success) => Ok(()),
        Some(WSStreamState::WaitingForDepth) => Ok(()),
        Some(WSStreamState::WSError(ws_error)) => Err(ErrorHotPath::ExchangeWSError(ws_error)),
        _ => Err(ErrorHotPath::ExchangeWSError(String::from_str("tbd"))),
    }
}

/// What one run step of an exchange stream that reports `ExchangeStreamError`
/// returns for what its poll reported: success while the stream delivers or
/// waits for depths, and a websocket error for anything else or a finished
/// stream.
pub fn poll_outcome(state: Option<WSStreamState>) -> (r: Result<(), ExchangeStreamError>)
    ensures
        match state {
            Some(WSStreamState::Success) | Some(WSStreamState::WaitingForDepth) => r is Ok,
            _ => r matches Err(ExchangeStreamError::ExchangeWSError(t)) && t@ == "tbd"@,
        },
{
    match state {
        Some(WSStreamState::Success) => Ok(()),
        Some(WSStreamState::WaitingForDepth) => Ok(()),
        _ => Err(ExchangeStreamError::ExchangeWSError(String::from_str("tbd"))),
    }
}

/// Which message format an exchange speaks.
#[derive(Clone, Copy, Debug, PartialEq, Eq, Structural)]
pub enum MessageFormat {
    Binance,
    ByBit,
}

/// The message format of exchange `exchange_name`: 1 and 2 speak Binance's,
/// 3 ByBit's; the stream stops reading any other.
pub fn message_format(exchange_name: u8) -> (r: Option<MessageFormat>)
    ensures
        exchange_name == 1 || exchange_name == 2 ==> r == Some(MessageFormat::Binance),
        exchange_name == 3 ==> r == Some(MessageFormat::ByBit),
        exchange_name == 0 || exchange_name > 3 ==> r is None,
{
    if exchange_name == 1 || exchange_name == 2 {
        Some(MessageFormat::Binance)
    } else if exchange_name == 3 {
        Some(MessageFormat::ByBit)
    } else {
        None
    }
}

/// Whether exchange `exchange_name` serves book snapshots: only 1 and 2 do.
pub fn serves_snapshots(exchange_name: u8) -> (r: bool)
    ensures
        r == (exchange_name == 1 || exchange_name == 2),
{
    exchange_name == 1 || exchange_name == 2
}

/// What becomes of an exchange's snapshot response.
#[derive(Clone, Copy, Debug, PartialEq, Eq, Structural)]
pub enum SnapshotRead {
    /// The body is read as a Binance snapshot.
    Parse,
    /// The exchange answered with a status other than 200.
    BadStatus,
    /// The exchange serves no snapshot the stream can read.
    NoSnapshot,
}

/// What becomes of a snapshot response with HTTP status `status` from
/// exchange `exchange_name`: exchange 1's is read only with status 200,
/// exchange 2's whatever its status, and no other exchange's.
pub fn snapshot_read(exchange_name: u8, status: u16) -> (r: SnapshotRead)
    ensures
        exchange_name == 1 && status == 200 ==> r == SnapshotRead::Parse,
        exchange_name == 1 && status != 200 ==> r == SnapshotRead::BadStatus,
        exchange_name == 2 ==> r == SnapshotRead::Parse,
        exchange_name != 1 && exchange_name != 2 ==> r == SnapshotRead::NoSnapshot,
{
    if exchange_name == 1 {
        if status == 200 {
            SnapshotRead::Parse
        } else {
            SnapshotRead::BadStatus
        }
    } else if exchange_name == 2 {
        SnapshotRead::Parse
    } else {
        SnapshotRead::NoSnapshot
    }
}

/// The address of an exchange's snapshot endpoint below `snapshot_uri`.
pub fn snapshot_endpoint(snapshot_uri: &str) -> (r: String)
    ensures
        r@ == snapshot_uri@ + "/depths"@,
{
    String::from_str(snapshot_uri).concat("/depths")
}

/// The depth updates of one exchange stream on their way to the order book.
///
/// While a snapshot is taken the updates of websocket messages are held back;
/// the snapshot's own updates go straight out. Updates leave from the back of
/// the outgoing buffer.
pub struct ExchangeStreamBuffers {
    buffer: Vec<DepthUpdate>,
    websocket_depth_buffer: Vec<DepthUpdate>,
    buffer_websocket_depths: bool,
}

impl ExchangeStreamBuffers {
    /// The updates waiting to leave; the last one leaves first.
    pub closed spec fn outgoing(&self) -> Seq<DepthUpdate> {
        self.buffer@
    }

    /// The websocket updates held back while a snapshot is taken.
    pub closed spec fn held_back(&self) -> Seq<DepthUpdate> {
        self.websocket_depth_buffer@
    }

    /// Whether websocket updates are being held back.
    pub closed spec fn holding_back(&self) -> bool {
        self.buffer_websocket_depths
    }

    /// Empty buffers that let websocket updates straight out.
    pub fn new() -> (r: Self)
        ensures
            r.outgoing() == Seq::<DepthUpdate>::empty(),
            r.held_back() == Seq::<DepthUpdate>::empty(),
            !r.holding_back(),
    {
        ExchangeStreamBuffers {
            buffer: Vec::new(),
            websocket_depth_buffer: Vec::new(),
            buffer_websocket_depths: false,
        }
    }

    /// Starts a snapshot: websocket updates are held back from now on.
    pub fn begin_snapshot(&mut self)
        ensures
            final(self).outgoing() == old(self).outgoing(),
            final(self).held_back() == old(self).held_back(),
            final(self).holding_back(),
    {
        self.buffer_websocket_depths = true;
    }

    /// Queues one update of the snapshot to leave.
    pub fn push_snapshot_depth(&mut self, depth: DepthUpdate)
        ensures
            final(self).outgoing() == old(self).outgoing().push(depth),
            final(self).held_back() == old(self).held_back(),
            final(self).holding_back() == old(self).holding_back(),
    {
        self.buffer.push(depth);
    }

    /// Takes in the updates of one websocket message, its bids and asks
    /// taken in turn: held back during a snapshot, queued to leave otherwise.
    pub fn stage_message(&mut self, bids: &Vec<DepthUpdate>, asks: &Vec<DepthUpdate>)
        ensures
            final(self).holding_back() == old(self).holding_back(),
            old(self).holding_back() ==> final(self).held_back() == old(self).held_back()
                + interleaved(bids@, asks@) && final(self).outgoing() == old(self).outgoing(),
            !old(self).holding_back() ==> final(self).outgoing() == old(self).outgoing()
                + interleaved(bids@, asks@) && final(self).held_back() == old(self).held_back(),
    {
        let mut woven_depths = interleave(bids, asks);
        if self.buffer_websocket_depths {
            self.websocket_depth_buffer.append(&mut woven_depths);
        } else {
            self.buffer.append(&mut woven_depths);
        }
    }

    /// Ends a snapshot: the held-back updates are moved, last first, to the
    /// outgoing buffer, and websocket updates go straight out again.
    pub fn push_buffered_ws_depths(&mut self)
        ensures
            final(self).outgoing() == old(self).outgoing() + reversed(old(self).held_back()),
            final(self).held_back() == Seq::<DepthUpdate>::empty(),
            !final(self).holding_back(),
    {
        while self.websocket_depth_buffer.len() > 0
            invariant
                self.buffer@ == old(self).buffer@ + old(self).websocket_depth_buffer@.subrange(
                    self.websocket_depth_buffer@.len() as int,
                    old(self).websocket_depth_buffer@.len() as int,
                ).reverse(),
                self.websocket_depth_buffer@.len() <= old(self).websocket_depth_buffer@.len(),
                self.websocket_depth_buffer@ == old(self).websocket_depth_buffer@.subrange(
                    0,
                    self.websocket_depth_buffer@.len() as int,
                ),
            decreases self.websocket_depth_buffer@.len(),
        {
            let ghost n = self.websocket_depth_buffer@.len();
            let websocket_depth = self.websocket_depth_buffer.pop().unwrap();
            self.buffer.push(websocket_depth);
            proof {
                let all = old(self).websocket_depth_buffer@;
                assert(reversed(all.subrange(n - 1, all.len() as int)) =~= reversed(all.subrange(
                    n as int,
                    all.len() as int,
                )).push(all[n - 1]));
                assert(self.buffer@ =~= old(self).buffer@ + reversed(all.subrange(
                    n - 1,
                    all.len() as int,
                )));
                assert(self.websocket_depth_buffer@ =~= all.subrange(0, n - 1));
            }
        }
        proof {
            assert(old(self).websocket_depth_buffer@.subrange(
                0,
                old(self).websocket_depth_buffer@.len() as int,
            ) =~= old(self).websocket_depth_buffer@);
        }
        self.buffer_websocket_depths = false;
    }

    /// Ends a snapshot without moving anything: websocket updates go straight
    /// out again, and the held-back ones wait to be replayed.
    pub fn end_snapshot(&mut self)
        ensures
            final(self).outgoing() == old(self).outgoing(),
            final(self).held_back() == old(self).held_back(),
            !final(self).holding_back(),
    {
        self.buffer_websocket_depths = false;
    }

    /// Moves the newest held-back update, if any, to leave next; a poll
    /// after each such move hands the held-back updates on newest first.
    pub fn replay_held_depth(&mut self) -> (r: bool)
        ensures
            final(self).holding_back() == old(self).holding_back(),
            r == (old(self).held_back().len() > 0),
            !r ==> final(self).outgoing() == old(self).outgoing() && final(self).held_back()
                == old(self).held_back(),
            r ==> final(self).held_back() == old(self).held_back().drop_last()
                && final(self).outgoing() == old(self).outgoing().push(
                old(self).held_back().last(),
            ),
    {
        match self.websocket_depth_buffer.pop() {
            Some(websocket_depth) => {
                self.buffer.push(websocket_depth);
                true
            },
            None => false,
        }
    }

    /// Queues a copy of every held-back update to leave, in the order they
    /// were held back; the held-back updates stay.
    pub fn sequence_depths(&mut self)
        ensures
            final(self).outgoing() == old(self).outgoing() + old(self).held_back(),
            final(self).held_back() == old(self).held_back(),
            final(self).holding_back() == old(self).holding_back(),
    {
        let n = self.websocket_depth_buffer.len();
        let mut i: usize = 0;
        while i < n
            invariant
                n == self.websocket_depth_buffer@.len(),
                i <= n,
                self.websocket_depth_buffer@ == old(self).websocket_depth_buffer@,
                self.buffer_websocket_depths == old(self).buffer_websocket_depths,
                self.buffer@ == old(self).buffer@ + old(self).websocket_depth_buffer@.take(
                    i as int,
                ),
            decreases n - i,
        {
            let depth_update = self.websocket_depth_buffer[i];
            self.buffer.push(depth_update);
            proof {
                assert(old(self).websocket_depth_buffer@.take(i + 1) =~= old(self).websocket_depth_buffer@.take(i as int).push(depth_update));
                assert(self.buffer@ =~= old(self).buffer@ + old(self).websocket_depth_buffer@.take(i + 1));
            }
            i = i + 1;
        }
        proof {
            assert(old(self).websocket_depth_buffer@.take(n as int) =~= old(self).websocket_depth_buffer@);
        }
    }

    /// Takes the next update to leave: the last one queued.
    pub fn next_depth(&mut self) -> (r: Option<DepthUpdate>)
        ensures
            old(self).outgoing().len() == 0 ==> r is None && final(self).outgoing() == old(self).outgoing(),
            old(self).outgoing().len() > 0 ==> r == Some(old(self).outgoing().last()) && final(self).outgoing() == old(self).outgoing().drop_last(),
            final(self).held_back() == old(self).held_back(),
            final(self).holding_back() == old(self).holding_back(),
    {
        self.buffer.pop()
    }

    /// Hands the next update to leave to the order book's depth channel. An
    /// update the full channel refuses stays to leave next and the stream
    /// reports a sender error; one refused because the order book is gone is
    /// dropped, with a sender error too; a delivered one is gone with nothing
    /// to report.
    pub fn forward_depth(&mut self, depths_producer: &CrossbeamSender<DepthUpdate>) -> (r: Option<
        WSStreamState,
    >)
        ensures
            final(self).held_back() == old(self).held_back(),
            final(self).holding_back() == old(self).holding_back(),
            old(self).outgoing().len() == 0 ==> r is None && final(self).outgoing() == old(
                self,
            ).outgoing(),
            old(self).outgoing().len() > 0 ==> {
                ||| r is None && final(self).outgoing() == old(self).outgoing().drop_last()
                ||| r == Some(WSStreamState::SenderError) && final(self).outgoing() == old(
                    self,
                ).outgoing()
                ||| r == Some(WSStreamState::SenderError) && final(self).outgoing() == old(
                    self,
                ).outgoing().drop_last()
            },
    {
        match self.buffer.pop() {
            Some(depth) => self.settle_delivery(send_depth(depths_producer, depth)),
            None => None,
        }
    }

    /// Takes what a send of the update that was to leave gave: a delivered
    /// update is gone with nothing to report; one the full channel handed
    /// back is queued again to leave next, with a sender error; one handed
    /// back because the order book is gone is dropped, with a sender error.
    pub fn settle_delivery(&mut self, delivery: Delivery) -> (r: Option<WSStreamState>)
        ensures
            final(self).held_back() == old(self).held_back(),
            final(self).holding_back() == old(self).holding_back(),
            delivery is Delivered ==> r is None && final(self).outgoing() == old(self).outgoing(),
            delivery matches Delivery::Full(d) ==> (r == Some(WSStreamState::SenderError)
                && final(self).outgoing() == old(self).outgoing().push(d)),
            delivery is Disconnected ==> (r == Some(WSStreamState::SenderError)
                && final(self).outgoing() == old(self).outgoing()),
    {
        match delivery {
            Delivery::Delivered => None,
            Delivery::Full(depth) => {
                self.buffer.push(depth);
                Some(WSStreamState::SenderError)
            },
            Delivery::Disconnected(_) => Some(WSStreamState::SenderError),
        }
    }
}

/// What a non-blocking send to the order book's depth channel gave; a
/// refused update comes back.
#[derive(Clone, Copy, Debug, PartialEq, Eq, Structural)]
pub enum Delivery {
    Delivered,
    /// The channel had no room.
    Full(DepthUpdate),
    /// The receiving order book is gone.
    Disconnected(DepthUpdate),
}

/// Calls `crossbeam_channel::Sender::try_send` and tells its outcomes apart.
/// Whether the channel has room depends on the thread that receives, so the
/// outcome is left open; what is stated is what `try_send` documents: a
/// refused send hands back the update it was given. Which update entered the
/// channel on a successful send is not observable here and is not stated.
#[verifier::external_body]
fn send_depth(depths_producer: &CrossbeamSender<DepthUpdate>, depth: DepthUpdate) -> (r: Delivery)
    ensures
        r matches Delivery::Full(d) ==> d == depth,
        r matches Delivery::Disconnected(d) ==> d == depth,
{
    match depths_producer.try_send(depth) {
        Ok(()) => Delivery::Delivered,
        Err(TrySendError::Full(d)) => Delivery::Full(d),
        Err(TrySendError::Disconnected(d)) => Delivery::Disconnected(d),
    }
}

/// The snapshot pulls of one snapshot: pulls are tried until one succeeds or
/// `limit` of them have failed.
pub struct SnapshotPulls {
    failed: u8,
    limit: u8,
    pulled: bool,
}

impl SnapshotPulls {
    /// How many pulls failed so far.
    pub closed spec fn failures(&self) -> nat {
        self.failed as nat
    }

    /// How many failed pulls end the attempt.
    pub closed spec fn limit(&self) -> nat {
        self.limit as nat
    }

    /// Whether a pull succeeded.
    pub closed spec fn pulled(&self) -> bool {
        self.pulled
    }

    /// No pull tried yet, with at most `limit` failures allowed.
    pub fn new(limit: u8) -> (r: Self)
        ensures
            r.failures() == 0,
            r.limit() == limit,
            !r.pulled(),
    {
        SnapshotPulls { failed: 0, limit, pulled: false }
    }

    /// Whether another pull is to be tried: none succeeded yet and fewer
    /// than `limit` failed.
    pub fn pull_again(&self) -> (r: bool)
        ensures
            r == (!self.pulled() && self.failures() < self.limit()),
    {
        !self.pulled && self.failed < self.limit
    }

    /// Records a failed pull.
    pub fn pull_failed(&mut self)
        requires
            old(self).failures() < old(self).limit(),
        ensures
            final(self).failures() == old(self).failures() + 1,
            final(self).limit() == old(self).limit(),
            final(self).pulled() == old(self).pulled(),
    {
        self.failed = self.failed + 1;
    }

    /// Records a successful pull: no more pulls are tried.
    pub fn pull_succeeded(&mut self)
        ensures
            final(self).failures() == old(self).failures(),
            final(self).limit() == old(self).limit(),
            final(self).pulled(),
    {
        self.pulled = true;
    }
}

/// `a` and `b` taken in pairs, one of `a` then one of `b`, for as long as
/// both last; what is left of the longer one is dropped.
pub open spec fn zipped<T>(a: Seq<T>, b: Seq<T>) -> Seq<T> {
    let n = if a.len() <= b.len() {
        a.len()
    } else {
        b.len()
    };
    Seq::new(
        2 * n,
        |i: int|
            if i % 2 == 0 {
                a[i / 2]
            } else {
                b[i / 2]
            },
    )
}

/// The depth updates of a websocket client on their way to the order book,
/// oldest first: each message adds its bids and asks in pairs, and every
/// poll hands all of them on.
pub struct ExchangeWSBuffer {
    buffer: VecDeque<DepthUpdate>,
}

impl ExchangeWSBuffer {
    /// The updates waiting, oldest first.
    pub closed spec fn queued(&self) -> Seq<DepthUpdate> {
        self.buffer@
    }

    /// An empty buffer.
    pub fn new() -> (r: Self)
        ensures
            r.queued() == Seq::<DepthUpdate>::empty(),
    {
        ExchangeWSBuffer { buffer: VecDeque::new() }
    }

    /// Takes in one message's updates: a bid, then an ask, for each pair the
    /// two sides make; the unpaired rest of the longer side is dropped.
    pub fn stage_message(&mut self, bids: &Vec<DepthUpdate>, asks: &Vec<DepthUpdate>)
        ensures
            final(self).queued() == old(self).queued() + zipped(bids@, asks@),
    {
        let n = if bids.len() <= asks.len() {
            bids.len()
        } else {
            asks.len()
        };
        let ghost pairs = zipped(bids@, asks@);
        let mut i: usize = 0;
        while i < n
            invariant
                n == (if bids@.len() <= asks@.len() {
                    bids@.len()
                } else {
                    asks@.len()
                }),
                pairs == zipped(bids@, asks@),
                pairs.len() == 2 * n,
                i <= n,
                self.buffer@ == old(self).buffer@ + pairs.take(2 * i),
            decreases n - i,
        {
            self.buffer.push_back(bids[i]);
            self.buffer.push_back(asks[i]);
            proof {
                assert(pairs[2 * i] == bids@[i as int]);
                assert(pairs[2 * i + 1] == asks@[i as int]);
                assert(pairs.take(2 * i + 2) =~= pairs.take(2 * i as int).push(bids@[i as int]).push(
                    asks@[i as int],
                ));
                assert(self.buffer@ =~= old(self).buffer@ + pairs.take(2 * (i + 1)));
            }
            i = i + 1;
        }
        proof {
            assert(pairs.take(2 * n as int) =~= pairs);
        }
    }

    /// Hands every waiting update, oldest first, to the order book's depth
    /// channel. An update the full channel refuses is dropped and the next
    /// one is tried; once the receiver is gone the stream reports a sender
    /// error and the rest stays waiting.
    pub fn drain(&mut self, depths_producer: &CrossbeamSender<DepthUpdate>) -> (r: Option<
        WSStreamState,
    >)
        ensures
            old(self).queued().len() == 0 ==> r is None && final(self).queued() == old(
                self,
            ).queued(),
            r is None ==> final(self).queued().len() == 0,
            r is Some ==> r == Some(WSStreamState::SenderError),
            r is Some ==> exists|k: int|
                1 <= k <= old(self).queued().len() && final(self).queued() == old(
                    self,
                ).queued().skip(k),
            exists|k: int|
                0 <= k <= old(self).queued().len() && final(self).queued() == old(
                    self,
                ).queued().skip(k),
    {
        let ghost all = self.buffer@;
        let ghost mut taken: int = 0;
        proof {
            assert(all.skip(0) =~= all);
        }
        while self.buffer.len() > 0
            invariant
                0 <= taken <= all.len(),
                all == old(self).buffer@,
                self.buffer@ == all.skip(taken),
            decreases self.buffer@.len(),
        {
            let depth = self.buffer.pop_front().unwrap();
            proof {
                assert(self.buffer@ =~= all.skip(taken + 1));
                taken = taken + 1;
            }
            if let Some(state) = drain_step(send_depth(depths_producer, depth)) {
                proof {
                    assert(self.queued() == old(self).queued().skip(taken));
                }
                return Some(state);
            }
        }
        proof {
            assert(self.queued() == old(self).queued().skip(taken));
        }
        None
    }
}

/// What draining does after one send to the depth channel: it carries on
/// when the update was delivered or refused by a full channel (the refused
/// update is dropped), and stops with a sender error once the receiver is
/// gone.
pub fn drain_step(delivery: Delivery) -> (r: Option<WSStreamState>)
    ensures
        delivery is Delivered ==> r is None,
        delivery is Full ==> r is None,
        delivery is Disconnected ==> r == Some(WSStreamState::SenderError),
{
    match delivery {
        Delivery::Delivered => None,
        Delivery::Full(_) => None,
        Delivery::Disconnected(_) => Some(WSStreamState::SenderError),
    }
}

/// Law: interleaving loses and invents nothing: the result holds exactly the
/// updates of both inputs, as many times as they occur there.
pub proof fn law_interleave_keeps_everything<T>(a: Seq<T>, b: Seq<T>)
    ensures
        interleaved(a, b).len() == a.len() + b.len(),
        interleaved(a, b).to_multiset() == a.to_multiset().add(b.to_multiset()),
    decreases a.len() + b.len(),
{
    broadcast use vstd::multiset::group_multiset_axioms;
    broadcast use vstd::seq_lib::group_to_multiset_ensures;

    if a.len() == 0 {
        assert(a.to_multiset().len() == 0);
        assert(a.to_multiset() =~= vstd::multiset::Multiset::<T>::empty());
        assert(interleaved(a, b).to_multiset() =~= a.to_multiset().add(b.to_multiset()));
    } else {
        law_interleave_keeps_everything(b, a.drop_first());
        let rest = interleaved(b, a.drop_first());
        vstd::seq_lib::lemma_multiset_commutative(seq![a[0]], rest);
        vstd::seq_lib::lemma_multiset_commutative(seq![a[0]], a.drop_first());
        assert(seq![a[0]] + a.drop_first() =~= a);
        assert(interleaved(a, b).to_multiset() =~= a.to_multiset().add(b.to_multiset()));
    }
}

/// Law: interleaving alternates while both inputs last: for `i` below the
/// shorter length, the `2i`-th update comes from `a` and the next from `b`.
pub proof fn law_interleave_alternates<T>(a: Seq<T>, b: Seq<T>, i: int)
    requires
        0 <= i < a.len(),
        i < b.len(),
    ensures
        interleaved(a, b)[2 * i] == a[i],
        interleaved(a, b)[2 * i + 1] == b[i],
    decreases i,
{
    law_interleave_keeps_everything(a.drop_first(), b.drop_first());
    assert(interleaved(a, b) == seq![a[0]] + interleaved(b, a.drop_first()));
    assert(interleaved(b, a.drop_first()) == seq![b[0]] + interleaved(
        a.drop_first(),
        b.drop_first(),
    ));
    if i > 0 {
        law_interleave_alternates(a.drop_first(), b.drop_first(), i - 1);
    }
}

} // verus!
