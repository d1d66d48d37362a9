//! ZCSS ring: a bounded first-in first-out ring of slots, addressed by
//! monotonically increasing head and tail counters.
use vstd::prelude::*;

verus! {

/// What a push does to the items of a ring of capacity `cap`: the value is
/// appended when there is room; a full ring is left as it is.
pub open spec fn ring_push<T>(items: Seq<T>, cap: nat, value: T) -> Seq<T> {
    if items.len() < cap {
        items.push(value)
    } else {
        items
    }
}

/// The items of a ring after pushing each of `values` in turn.
pub open spec fn ring_push_all<T>(items: Seq<T>, cap: nat, values: Seq<T>) -> Seq<T>
    decreases values.len(),
{
    if values.len() == 0 {
        items
    } else {
        ring_push_all(ring_push(items, cap, values[0]), cap, values.drop_first())
    }
}

pub struct ZcssRing<T> {
    buffer: Vec<Option<T>>,
    capacity: usize,
    head: usize,
    tail: usize,
}

impl<T> View for ZcssRing<T> {
    type V = Seq<T>;

    /// The items in the ring, oldest first.
    closed spec fn view(&self) -> Seq<T> {
        Seq::new(
            (self.tail - self.head) as nat,
            |i: int| self.buffer@[(self.head + i) % (self.capacity as int)]->Some_0,
        )
    }
}

proof fn lemma_mod_distinct(a: int, b: int, m: int)
    requires
        0 <= a < b < a + m,
    ensures
        a % m != b % m,
{
    assert(a % m != b % m) by (nonlinear_arith)
        requires
            0 <= a < b < a + m,
    ;
}

impl<T> ZcssRing<T> {
    /// The number of items the ring can hold.
    pub closed spec fn cap(&self) -> nat {
        self.capacity as nat
    }

    /// How many values the ring has accepted over its lifetime.
    pub closed spec fn pushed_count(&self) -> nat {
        self.tail as nat
    }

    /// The ring is well formed: one slot per unit of capacity, the tail at most
    /// `capacity` ahead of the head, and every slot between them filled.
    pub closed spec fn wf(&self) -> bool {
        &&& self.buffer@.len() == self.capacity
        &&& self.head <= self.tail
        &&& self.tail - self.head <= self.capacity
        &&& forall|k: int|
            self.head <= k < self.tail ==> (#[trigger] self.buffer@[k % (self.capacity as int)]) is Some
    }

    /// A well-formed ring holds at most its capacity.
    pub proof fn lemma_within_capacity(&self)
        requires
            self.wf(),
        ensures
            self@.len() <= self.cap(),
    {
    }

    pub fn new(capacity: usize) -> (ring: Self)
        ensures
            ring.wf(),
            ring@ == Seq::<T>::empty(),
            ring.cap() == capacity,
            ring.pushed_count() == 0,
    {
        let mut buffer: Vec<Option<T>> = Vec::with_capacity(capacity);
        let mut i: usize = 0;
        while i < capacity
            invariant
                i <= capacity,
                buffer@.len() == i,
            decreases capacity - i,
        {
            buffer.push(None);
            i += 1;
        }
        let ring = Self { buffer, capacity, head: 0, tail: 0 };
        assert(ring@ =~= Seq::<T>::empty());
        ring
    }

    /// Appends `value` at the tail, or hands it back when the ring is full.
    pub fn push(&mut self, value: T) -> (r: Result<(), T>)
        requires
            old(self).wf(),
            old(self).pushed_count() < usize::MAX,
        ensures
            final(self).wf(),
            final(self).cap() == old(self).cap(),
            final(self)@ == ring_push(old(self)@, old(self).cap(), value),
            r is Ok <==> old(self)@.len() < old(self).cap(),
            r is Ok ==> final(self).pushed_count() == old(self).pushed_count() + 1,
            r is Err ==> r == Err::<(), T>(value) && final(self).pushed_count() == old(self).pushed_count(),
    {
        let tail = self.tail;
        let head = self.head;

        if tail.wrapping_sub(head) >= self.capacity {
            return Err(value);
        }
        let idx = tail % self.capacity;
        let ghost pre = *self;
        self.buffer.set(idx, Some(value));
        self.tail = tail.wrapping_add(1);
        proof {
            let cap = self.capacity as int;
            assert forall|k: int| self.head <= k < self.tail implies (#[trigger] self.buffer@[k
                % cap]) is Some by {
                if k < tail {
                    lemma_mod_distinct(k, tail as int, cap);
                }
            }
            assert forall|i: int| 0 <= i < pre@.len() implies self@[i] == pre@[i] by {
                lemma_mod_distinct(head + i, tail as int, cap);
            }
            assert(self@ =~= pre@.push(value));
        }
        Ok(())
    }

    /// Takes the item at the head, or `None` when the ring is empty.
    pub fn pop(&mut self) -> (r: Option<T>)
        requires
            old(self).wf(),
        ensures
            final(self).wf(),
            final(self).cap() == old(self).cap(),
            final(self).pushed_count() == old(self).pushed_count(),
            old(self)@.len() == 0 ==> r is None && final(self)@ == old(self)@,
            old(self)@.len() > 0 ==> r == Some(old(self)@[0]) && final(self)@ == old(self)@.drop_first(),
    {
        let head = self.head;
        let tail = self.tail;

        if head == tail {
            return None;
        }
        let idx = head % self.capacity;
        let ghost pre = *self;
        let val = self.buffer[idx].take();
        self.head = head.wrapping_add(1);
        proof {
            let cap = self.capacity as int;
            assert(self.buffer@ == pre.buffer@.update(idx as int, None::<T>));
            assert forall|k: int| self.head <= k < self.tail implies (#[trigger] self.buffer@[k
                % cap]) is Some by {
                lemma_mod_distinct(head as int, k, cap);
                assert(pre.buffer@[k % cap] is Some);
            }
            assert forall|i: int| 0 <= i < self@.len() implies self@[i] == pre@[i + 1] by {
                lemma_mod_distinct(head as int, head + i + 1, cap);
            }
            assert(self@ =~= pre@.drop_first());
            assert(pre.buffer@[(head as int) % cap] is Some);
        }
        val
    }
}

/// Pushing values into a ring that has room for all of them appends them in
/// order: the ring is first in, first out.
pub proof fn lemma_ring_fifo<T>(items: Seq<T>, cap: nat, values: Seq<T>)
    requires
        items.len() + values.len() <= cap,
    ensures
        ring_push_all(items, cap, values) == items + values,
    decreases values.len(),
{
    if values.len() > 0 {
        lemma_ring_fifo(items.push(values[0]), cap, values.drop_first());
        assert(items.push(values[0]) + values.drop_first() =~= items + values);
    } else {
        assert(items + values =~= items);
    }
}

/// A full ring refuses every further push and keeps its items.
pub proof fn lemma_full_ring_refuses<T>(items: Seq<T>, cap: nat, values: Seq<T>)
    requires
        items.len() >= cap,
    ensures
        ring_push_all(items, cap, values) == items,
    decreases values.len(),
{
    if values.len() > 0 {
        lemma_full_ring_refuses(items, cap, values.drop_first());
    }
}

} // verus!
