//! A bounded single-receiver, multi-sender channel backed by a fixed ring of
//! `N` slots, with at most `S` live senders at a time.
//!
//! The channel state is owned by one `Channel` value; senders and the receiver
//! are handles that name it. The asynchronous `send` and `recv` of a runtime are
//! built from `Sender::poll_send` and `Receiver::poll_recv`, which decide one
//! poll step and park the caller's waker when it has to wait.

use std::task::Waker;
use vstd::prelude::*;

verus! {

broadcast use vstd::std_specs::bits::axiom_u64_trailing_zeros;

#[verifier::external_type_specification]
#[verifier::external_body]
pub struct ExWaker(Waker);

/// Calls `Waker::wake`, which schedules the task the waker belongs to.
/// Nothing is stated: the effect is on the runtime, not on a value here.
#[verifier::external_body]
fn wake_task(w: Waker) {
    w.wake()
}

/// Calls `Waker::will_wake`. The answer depends on the identity of the two
/// wakers (their data pointers and vtables), which no value here models, so
/// the result is left free.
#[verifier::external_body]
fn wakes_same_task(current: &Waker, incoming: &Waker) -> bool {
    current.will_wake(incoming)
}

/// Calls `Waker::clone`. A waker is opaque here, so nothing is stated of the
/// copy beyond its existence.
#[verifier::external_body]
fn copy_waker(w: &Waker) -> Waker {
    w.clone()
}

/// Parks `waker` in `slot`, keeping the waker already there when it wakes the
/// same task.
pub(crate) fn register(slot: &mut Option<Waker>, waker: &Waker)
    ensures
        *final(slot) is Some,
{
    match slot.take() {
        Some(w) => {
            if wakes_same_task(&w, waker) {
                *slot = Some(w);
            } else {
                *slot = Some(copy_waker(waker));
            }
        },
        None => {
            *slot = Some(copy_waker(waker));
        },
    }
}

/// Wakes the task parked in `slot`, if any, and empties the slot.
pub(crate) fn wake(slot: &mut Option<Waker>)
    ensures
        *final(slot) is None,
{
    if let Some(w) = slot.take() {
        wake_task(w);
    }
}

/// Wakes every parked task in `wakers`.
fn wake_all(wakers: &mut Vec<Option<Waker>>)
    ensures
        final(wakers)@.len() == old(wakers)@.len(),
        forall|k: int| 0 <= k < final(wakers)@.len() ==> (#[trigger] final(wakers)@[k]) is None,
{
    let n = wakers.len();
    let mut i: usize = 0;
    while i < n
        invariant
            n == old(wakers)@.len(),
            wakers@.len() == n,
            i <= n,
            forall|k: int| 0 <= k < i ==> (#[trigger] wakers@[k]) is None,
        decreases n - i,
    {
        wake(&mut wakers[i]);
        i = i + 1;
    }
}

/// Whether bit `i` of `x` is set.
pub open spec fn bit_set(x: u64, i: u64) -> bool {
    (x >> i) & 1u64 == 1u64
}

/// Position of the `i`-th queued element in a ring of `n` slots that starts at `head`.
pub open spec fn ring_slot(head: int, i: int, n: int) -> int {
    if head + i < n {
        head + i
    } else {
        head + i - n
    }
}

/// How far slot `j` lies past `head` in a ring of `n` slots.
pub open spec fn ring_offset(head: int, j: int, n: int) -> int {
    if j >= head {
        j - head
    } else {
        j + n - head
    }
}

proof fn lemma_no_bits_in_zero(i: u64)
    ensures
        !bit_set(0u64, i),
{
    assert((0u64 >> i) & 1u64 != 1u64) by (bit_vector);
}

proof fn lemma_bit_inserted(x: u64, id: u64, i: u64)
    requires
        id < 64,
    ensures
        bit_set(x | (1u64 << id), i) == (bit_set(x, i) || i == id),
{
    assert((((x | (1u64 << id)) >> i) & 1u64 == 1u64) == (((x >> i) & 1u64 == 1u64) || i == id))
        by (bit_vector)
        requires
            id < 64,
    ;
}

proof fn lemma_bit_removed(x: u64, id: u64, i: u64)
    requires
        id < 64,
    ensures
        bit_set(x & !(1u64 << id), i) == (bit_set(x, i) && i != id),
{
    assert((((x & !(1u64 << id)) >> i) & 1u64 == 1u64) == (((x >> i) & 1u64 == 1u64) && i != id))
        by (bit_vector)
        requires
            id < 64,
    ;
}

proof fn lemma_free_bit(x: u64, all: u64, s: u64, i: u64)
    requires
        0 < s <= 64,
        i < 64,
        s == 64 ==> all == 0xffff_ffff_ffff_ffffu64,
        s < 64 ==> all == (1u64 << s) - 1,
    ensures
        bit_set(!x & all, i) == (!bit_set(x, i) && i < s),
{
    if s == 64 {
        assert((((!x & all) >> i) & 1u64 == 1u64) == ((x >> i) & 1u64 != 1u64)) by (bit_vector)
            requires
                i < 64,
                all == 0xffff_ffff_ffff_ffffu64,
        ;
    } else {
        assert((((!x & all) >> i) & 1u64 == 1u64) == ((x >> i) & 1u64 != 1u64 && i < s))
            by (bit_vector)
            requires
                i < 64,
                s < 64,
                0 < s,
                all == (1u64 << s) - 1,
        ;
    }
}

/// The fixed-capacity channel: a ring of `N` slots, one receiver and up to
/// `S` senders, each sender owning one waker slot.
pub struct Channel<T, const N: usize, const S: usize> {
    slots: Vec<Option<T>>,
    head: usize,
    len: usize,
    rx_waker: Option<Waker>,
    tx_wakers: Vec<Option<Waker>>,
    /// Bit `i` set => waker slot `i` is owned by a live `Sender`.
    tx_ids: u64,
    rx_alive: bool,
}

/// A sending handle; it owns one of the channel's `S` sender slots.
pub struct Sender {
    id: usize,
}

/// The receiving handle.
pub struct Receiver {
    marker: (),
}

/// What one poll of a send decides.
pub enum SendPoll<T> {
    /// The value was queued.
    Sent,
    /// The receiver is gone; the value comes back.
    Closed(T),
    /// The ring is full; the value comes back and the sender's waker is parked.
    Full(T),
}

/// What one poll of a receive decides.
pub enum RecvPoll<T> {
    /// The oldest queued value.
    Item(T),
    /// The ring is empty and no sender is left.
    Closed,
    /// The ring is empty; the receiver's waker is parked.
    Empty,
}

impl Sender {
    #[verifier::type_invariant]
    spec fn id_in_range(self) -> bool {
        self.id < 64
    }

    /// The sender slot this handle owns.
    pub closed spec fn ident(self) -> nat {
        self.id as nat
    }

    /// The sender slot this handle owns.
    pub fn slot(&self) -> (r: usize)
        ensures
            r == self.ident(),
    {
        self.id
    }
}

impl<T, const N: usize, const S: usize> Channel<T, N, S> {
    /// The representation invariant.
    pub closed spec fn wf(&self) -> bool {
        &&& 0 < N
        &&& 0 < S <= 64
        &&& self.slots@.len() == N
        &&& self.tx_wakers@.len() == S
        &&& self.head < N
        &&& self.len <= N
        &&& forall|i: int|
            0 <= i < self.len ==> (#[trigger] self.slots@[ring_slot(
                self.head as int,
                i,
                N as int,
            )]) is Some
        &&& forall|j: int|
            0 <= j < N && ring_offset(self.head as int, j, N as int) >= self.len ==> (
            #[trigger] self.slots@[j]) is None
        &&& forall|i: u64| S <= i < 64 ==> !bit_set(self.tx_ids, i)
    }

    /// The queued values, oldest first.
    pub closed spec fn queue(&self) -> Seq<T> {
        Seq::new(
            self.len as nat,
            |i: int| self.slots@[ring_slot(self.head as int, i, N as int)]->0,
        )
    }

    /// The sender slots owned by live senders.
    pub closed spec fn senders(&self) -> Set<nat> {
        Set::new(|i: nat| i < S && bit_set(self.tx_ids, i as u64))
    }

    /// Whether the receiver is live.
    pub closed spec fn receiver_alive(&self) -> bool {
        self.rx_alive
    }

    /// The sender slots whose task is parked, waiting to be woken.
    pub closed spec fn parked_senders(&self) -> Set<nat> {
        Set::new(|i: nat| i < self.tx_wakers@.len() && self.tx_wakers@[i as int] is Some)
    }

    /// Whether the receiver's task is parked, waiting to be woken.
    pub closed spec fn receiver_parked(&self) -> bool {
        self.rx_waker is Some
    }

    /// Every sender slot.
    pub open spec fn all_sender_slots() -> Set<nat> {
        Set::new(|i: nat| i < S)
    }

    /// An empty channel with no sender and no receiver yet.
    pub fn new() -> (ch: Self)
        requires
            0 < N,
            0 < S <= 64,
        ensures
            ch.wf(),
            ch.queue() == Seq::<T>::empty(),
            ch.senders() == Set::<nat>::empty(),
            !ch.receiver_alive(),
            ch.parked_senders() == Set::<nat>::empty(),
            !ch.receiver_parked(),
    {
        let mut slots: Vec<Option<T>> = Vec::new();
        let mut i: usize = 0;
        while i < N
            invariant
                i <= N,
                slots@.len() == i,
                forall|k: int| 0 <= k < i ==> (#[trigger] slots@[k]) is None,
            decreases N - i,
        {
            slots.push(None);
            i = i + 1;
        }
        let mut tx_wakers: Vec<Option<Waker>> = Vec::new();
        let mut j: usize = 0;
        while j < S
            invariant
                j <= S,
                tx_wakers@.len() == j,
                forall|k: int| 0 <= k < j ==> (#[trigger] tx_wakers@[k]) is None,
            decreases S - j,
        {
            tx_wakers.push(None);
            j = j + 1;
        }
        let ch = Channel {
            slots,
            head: 0,
            len: 0,
            rx_waker: None,
            tx_wakers,
            tx_ids: 0,
            rx_alive: false,
        };
        proof {
            assert forall|k: u64| S <= k < 64 implies !bit_set(ch.tx_ids, k) by {
                lemma_no_bits_in_zero(k);
            }
            assert forall|k: nat| !ch.senders().contains(k) by {
                lemma_no_bits_in_zero(k as u64);
            }
            assert(ch.senders() =~= Set::<nat>::empty());
            assert(ch.queue() =~= Seq::<T>::empty());
            assert(ch.parked_senders() =~= Set::<nat>::empty());
        }
        ch
    }

    /// Opens the channel: the receiver becomes live and exactly one sender,
    /// owning slot 0, is handed out.
    pub fn split(&mut self) -> (pair: (Sender, Receiver))
        requires
            old(self).wf(),
        ensures
            final(self).wf(),
            final(self).queue() == old(self).queue(),
            final(self).receiver_alive(),
            final(self).senders() == set![0nat],
            pair.0.ident() == 0,
            final(self).parked_senders() == old(self).parked_senders(),
            final(self).receiver_parked() == old(self).receiver_parked(),
    {
        self.rx_alive = true;
        self.tx_ids = 0;
        proof {
            assert forall|k: u64| S <= k < 64 implies !bit_set(self.tx_ids, k) by {
                lemma_no_bits_in_zero(k);
            }
            assert forall|k: nat| !self.senders().contains(k) by {
                lemma_no_bits_in_zero(k as u64);
            }
            assert(!Self::all_sender_slots().subset_of(self.senders())) by {
                assert(Self::all_sender_slots().contains(0nat));
            }
        }
        let ghost before = self.senders();
        let id = self.alloc_tx().unwrap();
        proof {
            if id > 0 {
                assert(before.contains(0nat));
            }
            assert(self.senders() =~= set![0nat]);
            assert(self.parked_senders() =~= old(self).parked_senders());
        }
        (Sender { id }, Receiver { marker: () })
    }

    /// Whether any sender is live.
    pub fn tx_alive(&self) -> (alive: bool)
        requires
            self.wf(),
        ensures
            alive == !(self.senders() =~= Set::<nat>::empty()),
    {
        proof {
            if self.tx_ids != 0 {
                let tz = vstd::std_specs::bits::u64_trailing_zeros(self.tx_ids);
                assert(tz < 64);
                assert(bit_set(self.tx_ids, tz as u64));
                assert(tz < S);
                assert(self.senders().contains(tz as nat));
            } else {
                assert forall|k: nat| !self.senders().contains(k) by {
                    lemma_no_bits_in_zero(k as u64);
                }
            }
        }
        self.tx_ids != 0
    }

    /// Hands out the lowest free sender slot, or `None` when all `S` are owned.
    pub fn alloc_tx(&mut self) -> (id: Option<usize>)
        requires
            old(self).wf(),
        ensures
            final(self).wf(),
            final(self).queue() == old(self).queue(),
            final(self).receiver_alive() == old(self).receiver_alive(),
            id is None <==> Self::all_sender_slots().subset_of(old(self).senders()),
            id is None ==> final(self).senders() == old(self).senders(),
            final(self).parked_senders() == old(self).parked_senders(),
            final(self).receiver_parked() == old(self).receiver_parked(),
            id matches Some(i) ==> {
                &&& i < S
                &&& !old(self).senders().contains(i as nat)
                &&& final(self).senders() == old(self).senders().insert(i as nat)
                &&& forall|j: nat| j < i ==> old(self).senders().contains(j)
            },
    {
        let s = S as u64;
        proof {
            assert(s < 64 ==> (1u64 << s) >= 1u64) by (bit_vector);
        }
        let all: u64 = if S == 64 {
            0xffff_ffff_ffff_ffffu64
        } else {
            (1u64 << s) - 1
        };
        let free = !self.tx_ids & all;
        proof {
            assert forall|i: u64| i < 64 implies bit_set(free, i) == (!bit_set(self.tx_ids, i)
                && i < s) by {
                lemma_free_bit(self.tx_ids, all, s, i);
            }
        }
        if free == 0 {
            proof {
                assert forall|k: nat| Self::all_sender_slots().contains(k) implies old(self).senders().contains(k) by {
                    lemma_no_bits_in_zero(k as u64);
                }
            }
            return None;
        }
        let tz = free.trailing_zeros();
        let id = tz as usize;
        proof {
            assert(tz < 64);
            assert(bit_set(free, tz as u64));
            assert(id < S);
            assert(!old(self).senders().contains(id as nat));
            assert forall|j: nat| j < id implies old(self).senders().contains(j) by {
                assert((free >> (j as u64)) & 1u64 == 0u64);
                lemma_free_bit(self.tx_ids, all, s, j as u64);
            }
        }
        self.tx_ids = self.tx_ids | (1u64 << tz as u64);
        proof {
            assert forall|i: u64| S <= i < 64 implies !bit_set(self.tx_ids, i) by {
                lemma_bit_inserted(old(self).tx_ids, tz as u64, i);
            }
            assert forall|k: nat| self.senders().contains(k) == old(self).senders().insert(
                id as nat,
            ).contains(k) by {
                lemma_bit_inserted(old(self).tx_ids, tz as u64, k as u64);
            }
            assert(self.senders() =~= old(self).senders().insert(id as nat));
            assert(self.parked_senders() =~= old(self).parked_senders());
        }
        Some(id)
    }

    /// Wakes every parked sender.
    pub fn wake_tx(&mut self)
        requires
            old(self).wf(),
        ensures
            final(self).wf(),
            final(self).queue() == old(self).queue(),
            final(self).senders() == old(self).senders(),
            final(self).receiver_alive() == old(self).receiver_alive(),
            final(self).parked_senders() == Set::<nat>::empty(),
            final(self).receiver_parked() == old(self).receiver_parked(),
    {
        // Wake every parked sender: if only one were woken and its send future were then
        // cancelled, the freed slot would go unused while the others stay parked.
        wake_all(&mut self.tx_wakers);
        proof {
            assert(self.queue() =~= old(self).queue());
            assert(self.senders() =~= old(self).senders());
            assert(self.parked_senders() =~= Set::<nat>::empty());
        }
    }

    /// Queues `v` at the back unless the ring is full, in which case `v` comes back.
    pub fn push(&mut self, v: T) -> (r: Result<(), T>)
        requires
            old(self).wf(),
        ensures
            final(self).wf(),
            final(self).senders() == old(self).senders(),
            final(self).receiver_alive() == old(self).receiver_alive(),
            old(self).queue().len() == N ==> r == Err::<(), T>(v) && final(self).queue() == old(self).queue(),
            old(self).queue().len() < N ==> r is Ok && final(self).queue() == old(self).queue().push(v),
            final(self).parked_senders() == old(self).parked_senders(),
            r is Ok ==> !final(self).receiver_parked(),
            r is Err ==> final(self).receiver_parked() == old(self).receiver_parked(),
    {
        let len = self.len;
        if len == N {
            return Err(v);
        }
        let head = self.head;
        let idx = if len < N - head {
            head + len
        } else {
            len - (N - head)
        };
        proof {
            assert(idx == ring_slot(head as int, len as int, N as int));
            assert(ring_offset(head as int, idx as int, N as int) == len);
        }
        self.slots.set(idx, Some(v));
        self.len = len + 1;
        wake(&mut self.rx_waker);
        proof {
            assert forall|i: int| 0 <= i < self.len implies (#[trigger] self.slots@[ring_slot(
                self.head as int,
                i,
                N as int,
            )]) is Some by {
                if i < len {
                    assert(ring_slot(head as int, i, N as int) != idx);
                }
            }
            assert forall|j: int|
                0 <= j < N && ring_offset(self.head as int, j, N as int) >= self.len implies (
            #[trigger] self.slots@[j]) is None by {
                assert(j != idx);
                assert(self.slots@[j] == old(self).slots@[j]);
            }
            assert(self.queue() =~= old(self).queue().push(v));
            assert(self.senders() =~= old(self).senders());
            assert(self.parked_senders() =~= old(self).parked_senders());
        }
        Ok(())
    }

    /// Takes the oldest queued value, if any, and wakes the parked senders.
    pub fn pop(&mut self) -> (r: Option<T>)
        requires
            old(self).wf(),
        ensures
            final(self).wf(),
            final(self).senders() == old(self).senders(),
            final(self).receiver_alive() == old(self).receiver_alive(),
            old(self).queue().len() == 0 ==> r is None && final(self).queue() == old(self).queue(),
            old(self).queue().len() > 0 ==> r == Some(old(self).queue()[0]) && final(self).queue() == old(self).queue().drop_first(),
            final(self).receiver_parked() == old(self).receiver_parked(),
            r is Some ==> final(self).parked_senders() == Set::<nat>::empty(),
            r is None ==> final(self).parked_senders() == old(self).parked_senders(),
    {
        let len = self.len;
        if len == 0 {
            return None;
        }
        let head = self.head;
        proof {
            assert(ring_slot(head as int, 0, N as int) == head);
            assert(self.slots@[head as int] is Some);
        }
        let v = self.slots[head].take();
        self.head = if head + 1 < N {
            head + 1
        } else {
            0
        };
        self.len = len - 1;
        proof {
            assert forall|i: int| 0 <= i < self.len implies (#[trigger] self.slots@[ring_slot(
                self.head as int,
                i,
                N as int,
            )]) is Some by {
                assert(ring_slot(self.head as int, i, N as int) == ring_slot(
                    head as int,
                    i + 1,
                    N as int,
                ));
                assert(old(self).slots@[ring_slot(head as int, i + 1, N as int)] is Some);
            }
            assert forall|j: int|
                0 <= j < N && ring_offset(self.head as int, j, N as int) >= self.len implies (
            #[trigger] self.slots@[j]) is None by {
                if j != head {
                    assert(ring_offset(head as int, j, N as int) == ring_offset(
                        self.head as int,
                        j,
                        N as int,
                    ) + 1);
                    assert(self.slots@[j] == old(self).slots@[j]);
                }
            }
            assert(self.queue() =~= old(self).queue().drop_first());
            assert(self.senders() =~= old(self).senders());
        }
        self.wake_tx();
        v
    }
}

impl Sender {
    /// Queues `v` without waiting. `v` comes back when the receiver is gone or
    /// the ring is full.
    pub fn try_send<T, const N: usize, const S: usize>(
        &self,
        ch: &mut Channel<T, N, S>,
        v: T,
    ) -> (r: Result<(), T>)
        requires
            old(ch).wf(),
        ensures
            final(ch).wf(),
            final(ch).senders() == old(ch).senders(),
            final(ch).receiver_alive() == old(ch).receiver_alive(),
            r is Ok <==> old(ch).receiver_alive() && old(ch).queue().len() < N,
            r is Ok ==> final(ch).queue() == old(ch).queue().push(v),
            r is Err ==> r == Err::<(), T>(v) && final(ch).queue() == old(ch).queue(),
            final(ch).parked_senders() == old(ch).parked_senders(),
            r is Ok ==> !final(ch).receiver_parked(),
            r is Err ==> final(ch).receiver_parked() == old(ch).receiver_parked(),
    {
        if !ch.rx_alive {
            return Err(v);
        }
        ch.push(v)
    }

    /// A second handle on the same channel, owning the lowest free sender
    /// slot, or `None` when all `S` slots are owned.
    pub fn try_clone<T, const N: usize, const S: usize>(&self, ch: &mut Channel<T, N, S>) -> (r:
        Option<Sender>)
        requires
            old(ch).wf(),
        ensures
            final(ch).wf(),
            final(ch).queue() == old(ch).queue(),
            final(ch).receiver_alive() == old(ch).receiver_alive(),
            r is None <==> Channel::<T, N, S>::all_sender_slots().subset_of(old(ch).senders()),
            r is None ==> final(ch).senders() == old(ch).senders(),
            final(ch).parked_senders() == old(ch).parked_senders(),
            final(ch).receiver_parked() == old(ch).receiver_parked(),
            r matches Some(s) ==> {
                &&& s.ident() < S
                &&& !old(ch).senders().contains(s.ident())
                &&& final(ch).senders() == old(ch).senders().insert(s.ident())
                &&& forall|j: nat| j < s.ident() ==> old(ch).senders().contains(j)
            },
    {
        match ch.alloc_tx() {
            Some(id) => Some(Sender { id }),
            None => None,
        }
    }

    /// One poll of an asynchronous send: queue `v`, or hand it back because the
    /// receiver is gone, or hand it back and park `waker` because the ring is full.
    pub fn poll_send<T, const N: usize, const S: usize>(
        &self,
        ch: &mut Channel<T, N, S>,
        v: T,
        waker: &Waker,
    ) -> (r: SendPoll<T>)
        requires
            old(ch).wf(),
            self.ident() < S,
        ensures
            final(ch).wf(),
            final(ch).senders() == old(ch).senders(),
            final(ch).receiver_alive() == old(ch).receiver_alive(),
            !old(ch).receiver_alive() ==> r == SendPoll::Closed(v) && final(ch).queue() == old(ch).queue(),
            old(ch).receiver_alive() && old(ch).queue().len() < N ==> r is Sent && final(ch).queue() == old(ch).queue().push(v),
            old(ch).receiver_alive() && old(ch).queue().len() == N ==> r == SendPoll::Full(v)
                && final(ch).queue() == old(ch).queue(),
            r is Sent ==> !final(ch).receiver_parked() && final(ch).parked_senders() == old(
                ch,
            ).parked_senders(),
            r is Full ==> final(ch).parked_senders() == old(ch).parked_senders().insert(self.ident())
                && final(ch).receiver_parked() == old(ch).receiver_parked(),
            r is Closed ==> final(ch).parked_senders() == old(ch).parked_senders()
                && final(ch).receiver_parked() == old(ch).receiver_parked(),
    {
        if !ch.rx_alive {
            return SendPoll::Closed(v);
        }
        match ch.push(v) {
            Ok(()) => SendPoll::Sent,
            Err(v) => {
                register(&mut ch.tx_wakers[self.id], waker);
                proof {
                    assert(ch.queue() =~= old(ch).queue());
                    assert(ch.senders() =~= old(ch).senders());
                    assert(ch.parked_senders() =~= old(ch).parked_senders().insert(self.ident()));
                }
                SendPoll::Full(v)
            },
        }
    }

    /// Gives the sender slot back. When it was the last live sender, the
    /// parked receiver is woken so that it can observe the closed channel.
    pub fn release<T, const N: usize, const S: usize>(self, ch: &mut Channel<T, N, S>)
        requires
            old(ch).wf(),
            self.ident() < S,
        ensures
            final(ch).wf(),
            final(ch).queue() == old(ch).queue(),
            final(ch).receiver_alive() == old(ch).receiver_alive(),
            final(ch).senders() == old(ch).senders().remove(self.ident()),
            final(ch).parked_senders() == old(ch).parked_senders().remove(self.ident()),
            final(ch).senders() == Set::<nat>::empty() ==> !final(ch).receiver_parked(),
            final(ch).senders() != Set::<nat>::empty() ==> final(ch).receiver_parked() == old(
                ch,
            ).receiver_parked(),
    {
        proof {
            use_type_invariant(&self);
        }
        let id = self.id;
        ch.tx_wakers.set(id, None);
        ch.tx_ids = ch.tx_ids & !(1u64 << id as u64);
        proof {
            assert forall|i: u64| S <= i < 64 implies !bit_set(ch.tx_ids, i) by {
                lemma_bit_removed(old(ch).tx_ids, id as u64, i);
            }
            assert forall|k: nat| ch.senders().contains(k) == old(ch).senders().remove(
                id as nat,
            ).contains(k) by {
                lemma_bit_removed(old(ch).tx_ids, id as u64, k as u64);
            }
            assert(ch.senders() =~= old(ch).senders().remove(id as nat));
            assert(ch.queue() =~= old(ch).queue());
            assert(ch.parked_senders() =~= old(ch).parked_senders().remove(id as nat));
        }
        if !ch.tx_alive() {
            wake(&mut ch.rx_waker);
        }
    }
}

impl Receiver {
    /// Takes the oldest queued value without waiting.
    pub fn try_recv<T, const N: usize, const S: usize>(&self, ch: &mut Channel<T, N, S>) -> (r:
        Option<T>)
        requires
            old(ch).wf(),
        ensures
            final(ch).wf(),
            final(ch).senders() == old(ch).senders(),
            final(ch).receiver_alive() == old(ch).receiver_alive(),
            r is None <==> old(ch).queue().len() == 0,
            r is None ==> final(ch).queue() == old(ch).queue(),
            r is Some ==> r == Some(old(ch).queue()[0]) && final(ch).queue() == old(ch).queue().drop_first(),
            final(ch).receiver_parked() == old(ch).receiver_parked(),
            r is Some ==> final(ch).parked_senders() == Set::<nat>::empty(),
            r is None ==> final(ch).parked_senders() == old(ch).parked_senders(),
    {
        ch.pop()
    }

    /// One poll of an asynchronous receive: the oldest value, or the end of the
    /// stream once the ring is empty and every sender is gone, or a parked waker.
    pub fn poll_recv<T, const N: usize, const S: usize>(
        &self,
        ch: &mut Channel<T, N, S>,
        waker: &Waker,
    ) -> (r: RecvPoll<T>)
        requires
            old(ch).wf(),
        ensures
            final(ch).wf(),
            final(ch).senders() == old(ch).senders(),
            final(ch).receiver_alive() == old(ch).receiver_alive(),
            old(ch).queue().len() > 0 ==> r == RecvPoll::Item(old(ch).queue()[0]) && final(ch).queue() == old(ch).queue().drop_first(),
            old(ch).queue().len() == 0 ==> final(ch).queue() == old(ch).queue(),
            old(ch).queue().len() == 0 && old(ch).senders() == Set::<nat>::empty() ==> r is Closed,
            old(ch).queue().len() == 0 && old(ch).senders() != Set::<nat>::empty() ==> r is Empty,
            r is Item ==> final(ch).parked_senders() == Set::<nat>::empty()
                && final(ch).receiver_parked() == old(ch).receiver_parked(),
            r is Empty ==> final(ch).receiver_parked() && final(ch).parked_senders() == old(
                ch,
            ).parked_senders(),
            r is Closed ==> final(ch).receiver_parked() == old(ch).receiver_parked()
                && final(ch).parked_senders() == old(ch).parked_senders(),
    {
        if let Some(v) = ch.pop() {
            return RecvPoll::Item(v);
        }
        if !ch.tx_alive() {
            return RecvPoll::Closed;
        }
        register(&mut ch.rx_waker, waker);
        proof {
            assert(ch.queue() =~= old(ch).queue());
            assert(ch.senders() =~= old(ch).senders());
            assert(ch.parked_senders() =~= old(ch).parked_senders());
        }
        RecvPoll::Empty
    }

    /// Drops the receiving side: later sends hand their value back, and every
    /// parked sender is woken to observe it.
    pub fn close<T, const N: usize, const S: usize>(self, ch: &mut Channel<T, N, S>)
        requires
            old(ch).wf(),
        ensures
            final(ch).wf(),
            final(ch).queue() == old(ch).queue(),
            final(ch).senders() == old(ch).senders(),
            !final(ch).receiver_alive(),
            final(ch).parked_senders() == Set::<nat>::empty(),
            final(ch).receiver_parked() == old(ch).receiver_parked(),
    {
        ch.rx_alive = false;
        proof {
            assert(ch.queue() =~= old(ch).queue());
            assert(ch.senders() =~= old(ch).senders());
            assert(ch.parked_senders() =~= old(ch).parked_senders());
        }
        ch.wake_tx();
    }
}


/// Law: a channel never holds more than `N` values, and only sender slots
/// below `S` are ever owned.
pub proof fn law_channel_bounds<T, const N: usize, const S: usize>(ch: Channel<T, N, S>)
    requires
        ch.wf(),
    ensures
        ch.queue().len() <= N,
        ch.senders().subset_of(Channel::<T, N, S>::all_sender_slots()),
{
}

/// Law: values come out in the order they went in. A value sent while `q`
/// is queued is the one received right after the values of `q`, which come
/// out first and unchanged.
pub proof fn law_channel_fifo<T>(q: Seq<T>, v: T)
    ensures
        q.push(v).take(q.len() as int) == q,
        q.push(v)[q.len() as int] == v,
{
    assert(q.push(v).take(q.len() as int) =~= q);
}

/// Law: receiving from a queue `q` gives its oldest value and leaves the rest
/// in order; a value then sent lands behind them.
pub proof fn law_channel_receive_then_send<T>(q: Seq<T>, v: T)
    requires
        q.len() > 0,
    ensures
        q.drop_first().push(v) == q.push(v).drop_first(),
{
    assert(q.drop_first().push(v) =~= q.push(v).drop_first());
}

/// The queue that values `vs`, sent in order, leave behind a queue `q`.
pub open spec fn sent_all<T>(q: Seq<T>, vs: Seq<T>) -> Seq<T>
    decreases vs.len(),
{
    if vs.len() == 0 {
        q
    } else {
        sent_all(q.push(vs[0]), vs.drop_first())
    }
}

/// What `k` receives from queue `q` give, in order, and the queue they leave;
/// a receive from an empty queue gives nothing.
pub open spec fn received<T>(q: Seq<T>, k: nat) -> (Seq<T>, Seq<T>)
    decreases k,
{
    if k == 0 || q.len() == 0 {
        (Seq::<T>::empty(), q)
    } else {
        let rest = received(q.drop_first(), (k - 1) as nat);
        (seq![q[0]] + rest.0, rest.1)
    }
}

proof fn lemma_sent_all<T>(q: Seq<T>, vs: Seq<T>)
    ensures
        sent_all(q, vs) == q + vs,
    decreases vs.len(),
{
    if vs.len() > 0 {
        lemma_sent_all(q.push(vs[0]), vs.drop_first());
        assert(q.push(vs[0]) + vs.drop_first() =~= q + vs);
    } else {
        assert(q + vs =~= q);
    }
}

proof fn lemma_received<T>(q: Seq<T>, k: nat)
    requires
        k <= q.len(),
    ensures
        received(q, k) == (q.take(k as int), q.skip(k as int)),
    decreases k,
{
    if k == 0 {
        assert(q.take(0) =~= Seq::<T>::empty());
        assert(q.skip(0) =~= q);
    } else {
        lemma_received(q.drop_first(), (k - 1) as nat);
        assert(seq![q[0]] + q.drop_first().take(k - 1) =~= q.take(k as int));
        assert(q.drop_first().skip(k - 1) =~= q.skip(k as int));
    }
}

/// Law: receives undo sends in order. Sending `vs` one by one to a queue `q`
/// leaves `q` followed by `vs`, so the sends all fit while `q` and `vs`
/// together hold at most `N` values; receiving as many values as the queue
/// then holds gives back `q` and then `vs`, in order, and empties it. The
/// steps are those of `Sender::try_send` (a push at the back) and
/// `Receiver::try_recv` (the front value, then the rest).
pub proof fn law_channel_round_trip<T>(q: Seq<T>, vs: Seq<T>)
    ensures
        sent_all(q, vs) == q + vs,
        sent_all(q, vs).len() == q.len() + vs.len(),
        received(sent_all(q, vs), (q.len() + vs.len()) as nat) == (q + vs, Seq::<T>::empty()),
        received(sent_all(Seq::<T>::empty(), vs), vs.len()).0 == vs,
{
    lemma_sent_all(q, vs);
    lemma_received(q + vs, (q.len() + vs.len()) as nat);
    assert((q + vs).take((q.len() + vs.len()) as int) =~= q + vs);
    assert((q + vs).skip((q.len() + vs.len()) as int) =~= Seq::<T>::empty());
    lemma_sent_all(Seq::<T>::empty(), vs);
    assert(Seq::<T>::empty() + vs =~= vs);
    lemma_received(vs, vs.len());
    assert(vs.take(vs.len() as int) =~= vs);
}

} // verus!
