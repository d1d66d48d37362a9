//! Cosmic queue: a bounded first-in first-out queue of packet frames, held in
//! a `crossbeam_queue::ArrayQueue`.
use vstd::prelude::*;

use crate::primitives::zcss_ring::ring_push;
use crossbeam_queue::ArrayQueue;

verus! {

#[derive(Clone, Debug)]
pub struct PacketFrame {
    pub timestamp: u64,
    pub payload: Vec<u8>,
}

#[verifier::external_type_specification]
#[verifier::external_body]
#[verifier::reject_recursive_types(T)]
pub struct ExArrayQueue<T>(ArrayQueue<T>);

/// The frames that a queue holds, oldest first.
pub uninterp spec fn queued_frames(q: ArrayQueue<PacketFrame>) -> Seq<PacketFrame>;

/// The capacity given when a queue is created.
pub uninterp spec fn queue_capacity(q: ArrayQueue<PacketFrame>) -> nat;

/// Calls `ArrayQueue::new`, which creates an empty queue holding at most `cap`
/// items. It panics when `cap` is 0, or too large for the smallest power of two
/// above it to fit in an index; `requires` leaves both out.
#[verifier::external_body]
fn new_frame_queue(cap: usize) -> (q: ArrayQueue<PacketFrame>)
    requires
        0 < cap <= usize::MAX / 2,
    ensures
        queued_frames(q) == Seq::<PacketFrame>::empty(),
        queue_capacity(q) == cap,
{
    ArrayQueue::new(cap)
}

/// Calls `ArrayQueue::push` on a queue held exclusively: the frame is appended
/// when the queue holds fewer than its capacity, and handed back unchanged when
/// the queue is full.
#[verifier::external_body]
fn push_frame(q: &mut ArrayQueue<PacketFrame>, frame: PacketFrame) -> (r: Result<(), PacketFrame>)
    ensures
        queue_capacity(*final(q)) == queue_capacity(*old(q)),
        queued_frames(*old(q)).len() < queue_capacity(*old(q)) ==> r is Ok && queued_frames(*final(q))
            == queued_frames(*old(q)).push(frame),
        queued_frames(*old(q)).len() >= queue_capacity(*old(q)) ==> (r matches Err(f) && f == frame)
            && queued_frames(*final(q)) == queued_frames(*old(q)),
{
    q.push(frame)
}

/// Calls `ArrayQueue::pop` on a queue held exclusively: the oldest frame is
/// taken out, or `None` comes back when the queue is empty.
#[verifier::external_body]
fn pop_frame(q: &mut ArrayQueue<PacketFrame>) -> (r: Option<PacketFrame>)
    ensures
        queue_capacity(*final(q)) == queue_capacity(*old(q)),
        queued_frames(*old(q)).len() == 0 ==> r is None && queued_frames(*final(q)) == queued_frames(
            *old(q),
        ),
        queued_frames(*old(q)).len() > 0 ==> r == Some(queued_frames(*old(q))[0]) && queued_frames(
            *final(q),
        ) == queued_frames(*old(q)).drop_first(),
{
    q.pop()
}

pub struct CosmicQueue {
    queue: ArrayQueue<PacketFrame>,
}

impl View for CosmicQueue {
    type V = Seq<PacketFrame>;

    /// The queued frames, oldest first.
    closed spec fn view(&self) -> Seq<PacketFrame> {
        queued_frames(self.queue)
    }
}

impl CosmicQueue {
    /// How many frames the queue can hold.
    pub closed spec fn capacity(&self) -> nat {
        queue_capacity(self.queue)
    }

    /// The queue never holds more frames than its capacity.
    pub closed spec fn wf(&self) -> bool {
        queued_frames(self.queue).len() <= queue_capacity(self.queue)
    }

    /// A well-formed queue holds at most its capacity.
    pub proof fn lemma_within_capacity(&self)
        requires
            self.wf(),
        ensures
            self@.len() <= self.capacity(),
    {
    }

    pub fn new(capacity: usize) -> (q: Self)
        requires
            0 < capacity <= usize::MAX / 2,
        ensures
            q.wf(),
            q@ == Seq::<PacketFrame>::empty(),
            q.capacity() == capacity,
    {
        Self { queue: new_frame_queue(capacity) }
    }

    /// Appends a frame, or hands it back when the queue is full.
    pub fn push(&mut self, frame: PacketFrame) -> (r: Result<(), PacketFrame>)
        requires
            old(self).wf(),
        ensures
            final(self).wf(),
            final(self).capacity() == old(self).capacity(),
            final(self)@ == ring_push(old(self)@, old(self).capacity(), frame),
            r is Ok <==> old(self)@.len() < old(self).capacity(),
            r is Err ==> r == Err::<(), PacketFrame>(frame),
    {
        push_frame(&mut self.queue, frame)
    }

    /// Takes the oldest frame, or `None` when the queue is empty.
    pub fn pop(&mut self) -> (r: Option<PacketFrame>)
        requires
            old(self).wf(),
        ensures
            final(self).wf(),
            final(self).capacity() == old(self).capacity(),
            old(self)@.len() == 0 ==> r is None && final(self)@ == old(self)@,
            old(self)@.len() > 0 ==> r == Some(old(self)@[0]) && final(self)@ == old(self)@.drop_first(),
    {
        pop_frame(&mut self.queue)
    }
}

} // verus!
