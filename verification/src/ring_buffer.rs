//! A bounded buffer of depth updates, filled from a crossbeam channel.
//!
//! When the buffer holds `size` updates, pushing at one end first drops the
//! update at the other end.

use crate::config::RingBufferConfig;
use crate::objects::DepthUpdate;
use crossbeam_channel::Receiver as CrossbeamReceiver;
use crossbeam_channel::Sender as CrossbeamSender;
use crossbeam_channel::TryRecvError;
use std::collections::VecDeque;
use vstd::prelude::*;

verus! {

broadcast use vstd::std_specs::vecdeque::group_vec_dequeue_axioms;

#[verifier::external_type_specification]
#[verifier::external_body]
#[verifier::reject_recursive_types(T)]
pub struct ExCrossbeamSender<T>(CrossbeamSender<T>);

#[verifier::external_type_specification]
#[verifier::external_body]
#[verifier::reject_recursive_types(T)]
pub struct ExCrossbeamReceiver<T>(CrossbeamReceiver<T>);

/// What one non-blocking receive from the depth channel gave.
pub enum Received {
    Depth(DepthUpdate),
    /// Nothing was waiting.
    Empty,
    /// Nothing was waiting and every sender is gone.
    Disconnected,
}

/// Why a receive from the depth channel failed.
#[derive(Clone, Copy, Debug, PartialEq, Eq, Structural)]
pub enum RecvFailure {
    Empty,
    Disconnected,
}

/// The buffer's error: its depth channel failed.
#[derive(Debug)]
pub enum BufferError {
    Failed(RecvFailure),
}

impl BufferError {
    /// The human-readable message of this error.
    pub fn message(&self) -> (r: String)
        ensures
            r@ == (match *self {
                BufferError::Failed(RecvFailure::Empty) =>
                    "BufferError::Failed: receiving on an empty channel"@,
                BufferError::Failed(RecvFailure::Disconnected) =>
                    "BufferError::Failed: receiving on an empty and disconnected channel"@,
            }),
    {
        match self {
            BufferError::Failed(RecvFailure::Empty) => String::from_str(
                "BufferError::Failed: receiving on an empty channel",
            ),
            BufferError::Failed(RecvFailure::Disconnected) => String::from_str(
                "BufferError::Failed: receiving on an empty and disconnected channel",
            ),
        }
    }
}

/// Calls `crossbeam_channel::bounded(cap)`: a channel that holds at most
/// `cap` updates (a rendezvous channel when `cap` is 0). Nothing is stated of
/// the two handles, which are opaque here. `bounded` panics when `cap` is too
/// large for its internal lap counter or for the slot buffer it allocates up
/// front, which the bound in `requires` rules out.
#[verifier::external_body]
fn depth_channel(cap: usize) -> (CrossbeamSender<DepthUpdate>, CrossbeamReceiver<DepthUpdate>)
    requires
        cap <= isize::MAX as usize / 64,
{
    crossbeam_channel::bounded::<DepthUpdate>(cap)
}

/// Calls `Receiver::try_recv` on the depth channel and tells its outcomes
/// apart. What comes back depends on the other threads that hold senders, so
/// nothing is stated of it.
#[verifier::external_body]
fn receive_depth(consumer: &CrossbeamReceiver<DepthUpdate>) -> Received {
    match consumer.try_recv() {
        Ok(depth) => Received::Depth(depth),
        Err(TryRecvError::Empty) => Received::Empty,
        Err(TryRecvError::Disconnected) => Received::Disconnected,
    }
}

/// The buffer after pushing `item` at the back of `buf` with room for `size`:
/// a full, non-empty buffer first loses its oldest update.
pub open spec fn pushed_back(buf: Seq<DepthUpdate>, size: nat, item: DepthUpdate) -> Seq<
    DepthUpdate,
> {
    if buf.len() == size && size > 0 {
        buf.drop_first().push(item)
    } else {
        buf.push(item)
    }
}

/// `fed` is the buffer `buf`, with room for `size` updates, after at most one
/// update came in from the depth channel.
pub open spec fn fed_from(buf: Seq<DepthUpdate>, size: nat, fed: Seq<DepthUpdate>) -> bool {
    fed == buf || exists|d: DepthUpdate| fed == pushed_back(buf, size, d)
}

/// The buffer after pushing `item` at the front of `buf` with room for `size`:
/// a full, non-empty buffer first loses its newest update.
pub open spec fn pushed_front(buf: Seq<DepthUpdate>, size: nat, item: DepthUpdate) -> Seq<
    DepthUpdate,
> {
    if buf.len() == size && size > 0 {
        seq![item] + buf.drop_last()
    } else {
        seq![item] + buf
    }
}

/// A bounded buffer of depth updates fed by a depth channel.
pub struct RingBuffer {
    size: usize,
    buffer: VecDeque<DepthUpdate>,
    depth_consumer: CrossbeamReceiver<DepthUpdate>,
}

impl RingBuffer {
    /// The buffered updates, oldest first.
    pub closed spec fn contents(&self) -> Seq<DepthUpdate> {
        self.buffer@
    }

    /// How many updates the buffer keeps.
    pub closed spec fn capacity(&self) -> nat {
        self.size as nat
    }

    /// An empty buffer of `ring_buffer_size` updates, and the sending half of
    /// its depth channel, which holds `channel_buffer_size` updates.
    pub fn new(ring_buffer_config: &RingBufferConfig) -> (r: (Self, CrossbeamSender<DepthUpdate>))
        requires
            ring_buffer_config.channel_buffer_size <= isize::MAX as usize / 64,
        ensures
            r.0.contents() == Seq::<DepthUpdate>::empty(),
            r.0.capacity() == ring_buffer_config.ring_buffer_size,
    {
        let (producer, consumer) = depth_channel(ring_buffer_config.channel_buffer_size);
        let rb = RingBuffer {
            size: ring_buffer_config.ring_buffer_size,
            buffer: VecDeque::with_capacity(ring_buffer_config.ring_buffer_size),
            depth_consumer: consumer,
        };
        (rb, producer)
    }

    /// Takes what one non-blocking receive from the depth channel gave: an
    /// update is pushed at the back; an empty channel changes nothing; a
    /// disconnected one is an error.
    pub fn absorb(&mut self, received: Received) -> (r: Result<(), BufferError>)
        ensures
            final(self).capacity() == old(self).capacity(),
            match received {
                Received::Depth(d) => r is Ok && final(self).contents() == pushed_back(
                    old(self).contents(),
                    old(self).capacity(),
                    d,
                ),
                Received::Empty => r is Ok && final(self).contents() == old(self).contents(),
                Received::Disconnected => (r matches Err(
                    BufferError::Failed(RecvFailure::Disconnected),
                )) && final(self).contents() == old(self).contents(),
            },
    {
        match received {
            Received::Depth(depth_update) => {
                self.push_back(depth_update);
                Ok(())
            },
            Received::Empty => Ok(()),
            Received::Disconnected => Err(BufferError::Failed(RecvFailure::Disconnected)),
        }
    }

    /// Moves at most one waiting update from the depth channel to the back of
    /// the buffer. Fails, changing nothing, once the channel is empty and
    /// disconnected.
    pub fn consume(&mut self) -> (r: Result<(), BufferError>)
        ensures
            final(self).capacity() == old(self).capacity(),
            r is Ok ==> fed_from(old(self).contents(), old(self).capacity(), final(self).contents()),
            r is Err ==> (r matches Err(BufferError::Failed(RecvFailure::Disconnected))) && final(self).contents() == old(self).contents(),
    {
        let received = receive_depth(&self.depth_consumer);
        self.absorb(received)
    }

    /// Takes the oldest buffered update.
    pub fn pop_depth(&mut self) -> (r: Option<DepthUpdate>)
        ensures
            final(self).capacity() == old(self).capacity(),
            old(self).contents().len() == 0 ==> r is None && final(self).contents() == old(self).contents(),
            old(self).contents().len() > 0 ==> r == Some(old(self).contents()[0]) && final(self).contents() == old(self).contents().drop_first(),
    {
        self.buffer.pop_front()
    }

    /// Pushes `item` at the back, dropping the oldest update when full.
    pub fn push_back(&mut self, item: DepthUpdate)
        ensures
            final(self).capacity() == old(self).capacity(),
            final(self).contents() == pushed_back(old(self).contents(), old(self).capacity(), item),
            old(self).contents().len() == old(self).capacity() && old(self).capacity() > 0
                ==> final(self).contents() == old(self).contents().drop_first().push(item),
            !(old(self).contents().len() == old(self).capacity() && old(self).capacity() > 0)
                ==> final(self).contents() == old(self).contents().push(item),
    {
        if self.buffer.len() == self.size {
            self.buffer.pop_front();
        }
        self.buffer.push_back(item);
        proof {
            assert(self.buffer@ =~= pushed_back(old(self).buffer@, self.size as nat, item));
        }
    }

    /// Pushes `item` at the front, dropping the newest update when full.
    pub fn push_front(&mut self, item: DepthUpdate)
        ensures
            final(self).capacity() == old(self).capacity(),
            final(self).contents() == pushed_front(old(self).contents(), old(self).capacity(), item),
            old(self).contents().len() == old(self).capacity() && old(self).capacity() > 0
                ==> final(self).contents() == seq![item] + old(self).contents().drop_last(),
            !(old(self).contents().len() == old(self).capacity() && old(self).capacity() > 0)
                ==> final(self).contents() == seq![item] + old(self).contents(),
    {
        if self.buffer.len() == self.size {
            self.buffer.pop_back();
        }
        self.buffer.push_front(item);
        proof {
            assert(self.buffer@ =~= pushed_front(old(self).buffer@, self.size as nat, item));
        }
    }
}


/// Law: pushing at the back never takes a buffer with room for `size > 0`
/// updates beyond `size`, keeps the newest update last, and keeps every
/// update but the oldest when it drops one.
pub proof fn law_push_back_bounded(buf: Seq<DepthUpdate>, size: nat, item: DepthUpdate)
    requires
        size > 0,
        buf.len() <= size,
    ensures
        pushed_back(buf, size, item).len() <= size,
        pushed_back(buf, size, item).last() == item,
        buf.len() < size ==> pushed_back(buf, size, item).drop_last() == buf,
        buf.len() == size ==> pushed_back(buf, size, item).drop_last() == buf.drop_first(),
{
    assert(buf.push(item).drop_last() =~= buf);
    if buf.len() == size {
        assert(buf.drop_first().push(item).drop_last() =~= buf.drop_first());
    }
}

/// Law: pushing at the front never takes a buffer with room for `size > 0`
/// updates beyond `size`, and the pushed update is the next to pop.
pub proof fn law_push_front_bounded(buf: Seq<DepthUpdate>, size: nat, item: DepthUpdate)
    requires
        size > 0,
        buf.len() <= size,
    ensures
        pushed_front(buf, size, item).len() <= size,
        pushed_front(buf, size, item)[0] == item,
{
}

/// Law: only a full buffer loses an update. Pushing at either end of a
/// buffer with room for more keeps every update already there, in order:
/// at the front the pushed update comes first and the rest follows
/// unchanged; at the back the rest comes first and the pushed update last.
/// A full buffer loses exactly one update, the one at the other end.
pub proof fn law_push_keeps_all_with_room(buf: Seq<DepthUpdate>, size: nat, item: DepthUpdate)
    ensures
        buf.len() < size ==> pushed_front(buf, size, item).len() == buf.len() + 1
            && pushed_front(buf, size, item)[0] == item
            && pushed_front(buf, size, item).drop_first() == buf,
        buf.len() < size ==> pushed_back(buf, size, item).len() == buf.len() + 1
            && pushed_back(buf, size, item).last() == item
            && pushed_back(buf, size, item).drop_last() == buf,
        buf.len() == size && size > 0 ==> pushed_front(buf, size, item).len() == size
            && pushed_front(buf, size, item)[0] == item
            && pushed_front(buf, size, item).drop_first() == buf.take(size - 1),
        buf.len() == size && size > 0 ==> pushed_back(buf, size, item).len() == size
            && pushed_back(buf, size, item).last() == item
            && pushed_back(buf, size, item).drop_last() == buf.skip(1),
{
    assert((seq![item] + buf).drop_first() =~= buf);
    assert(buf.push(item).drop_last() =~= buf);
    if buf.len() == size && size > 0 {
        assert((seq![item] + buf.drop_last()).drop_first() =~= buf.take(size - 1));
        assert(buf.drop_first().push(item).drop_last() =~= buf.skip(1));
    }
}

/// Law: an update pushed at the back of an empty buffer is the next one
/// popped, whatever the size.
pub proof fn law_push_back_then_pop(size: nat, item: DepthUpdate)
    ensures
        pushed_back(Seq::<DepthUpdate>::empty(), size, item) == seq![item],
{
    assert(Seq::<DepthUpdate>::empty().push(item) =~= seq![item]);
}

} // verus!
