use vstd::prelude::*;

verus! {

/// One arrival at a FIFO channel: a message is kept only while there is room,
/// so once the channel is full the newest arrivals are dropped.
pub open spec fn fifo_arrival<T>(contents: Seq<T>, item: T, cap: nat) -> Seq<T> {
    if contents.len() < cap {
        contents.push(item)
    } else {
        contents
    }
}

/// One arrival at a ring channel: when full, the oldest entry makes room for
/// the newcomer.
pub open spec fn ring_arrival<T>(contents: Seq<T>, item: T, cap: nat) -> Seq<T> {
    if contents.len() < cap {
        contents.push(item)
    } else if cap > 0 {
        contents.drop_first().push(item)
    } else {
        contents
    }
}

/// Contents of a FIFO channel after the whole emission `msgs` arrives at an
/// initially empty channel.
pub open spec fn fifo_fold<T>(msgs: Seq<T>, cap: nat) -> Seq<T>
    decreases msgs.len(),
{
    if msgs.len() == 0 {
        Seq::empty()
    } else {
        fifo_arrival(fifo_fold(msgs.drop_last(), cap), msgs.last(), cap)
    }
}

/// Contents of a ring channel after the whole emission `msgs` arrives at an
/// initially empty channel.
pub open spec fn ring_fold<T>(msgs: Seq<T>, cap: nat) -> Seq<T>
    decreases msgs.len(),
{
    if msgs.len() == 0 {
        Seq::empty()
    } else {
        ring_arrival(ring_fold(msgs.drop_last(), cap), msgs.last(), cap)
    }
}

/// Law: a FIFO channel retains the first `capacity` messages of an emission
/// (all of them when the emission is shorter), in emission order; no retained
/// message is out of order.
pub proof fn lemma_fifo_fill_order<T>(msgs: Seq<T>, cap: nat)
    ensures
        fifo_fold(msgs, cap) == if msgs.len() <= cap {
            msgs
        } else {
            msgs.take(cap as int)
        },
    decreases msgs.len(),
{
    if msgs.len() > 0 {
        lemma_fifo_fill_order(msgs.drop_last(), cap);
        if msgs.len() <= cap {
            assert(msgs.drop_last().push(msgs.last()) =~= msgs);
        } else if msgs.len() == cap + 1 {
            assert(msgs.drop_last() =~= msgs.take(cap as int));
        } else {
            assert(msgs.drop_last().take(cap as int) =~= msgs.take(cap as int));
        }
    }
}

/// Law: once an emission exceeds `capacity`, a ring channel holds exactly the
/// most recent `capacity` messages, oldest first among those retained.
pub proof fn lemma_ring_retention<T>(msgs: Seq<T>, cap: nat)
    requires
        cap > 0,
    ensures
        ring_fold(msgs, cap) == if msgs.len() <= cap {
            msgs
        } else {
            msgs.skip(msgs.len() - cap as int)
        },
    decreases msgs.len(),
{
    if msgs.len() > 0 {
        lemma_ring_retention(msgs.drop_last(), cap);
        if msgs.len() <= cap {
            assert(msgs.drop_last().push(msgs.last()) =~= msgs);
        } else if msgs.len() == cap + 1 {
            assert(msgs.drop_last().drop_first().push(msgs.last()) =~= msgs.skip(1));
        } else {
            assert(msgs.drop_last().skip(msgs.drop_last().len() - cap as int).drop_first().push(
                msgs.last(),
            ) =~= msgs.skip(msgs.len() - cap as int));
        }
    }
}

/// Bounded, order-preserving delivery queue: arrivals beyond the capacity are
/// dropped, so the producer never blocks and never reorders.
pub struct FifoBuffer<T> {
    items: Vec<T>,
    capacity: usize,
}

impl<T> FifoBuffer<T> {
    pub closed spec fn view(&self) -> Seq<T> {
        self.items@
    }

    pub closed spec fn spec_capacity(&self) -> nat {
        self.capacity as nat
    }

    pub open spec fn wf(&self) -> bool {
        self.view().len() <= self.spec_capacity()
    }

    pub fn new(capacity: usize) -> (r: FifoBuffer<T>)
        ensures
            r.wf(),
            r@ == Seq::<T>::empty(),
            r.spec_capacity() == capacity,
    {
        FifoBuffer { items: Vec::new(), capacity }
    }

    pub fn capacity(&self) -> (r: usize)
        ensures
            r == self.spec_capacity(),
    {
        self.capacity
    }

    pub fn len(&self) -> (r: usize)
        ensures
            r == self@.len(),
    {
        self.items.len()
    }

    /// Accepts the arrival while there is room; a full channel drops it.
    pub fn push(&mut self, item: T) -> (accepted: bool)
        requires
            old(self).wf(),
        ensures
            final(self).wf(),
            final(self).spec_capacity() == old(self).spec_capacity(),
            final(self)@ == fifo_arrival(old(self)@, item, old(self).spec_capacity()),
            accepted == (old(self)@.len() < old(self).spec_capacity()),
    {
        if self.items.len() < self.capacity {
            self.items.push(item);
            true
        } else {
            false
        }
    }

    /// Hands out the oldest retained message, if any.
    pub fn pop(&mut self) -> (r: Option<T>)
        requires
            old(self).wf(),
        ensures
            final(self).wf(),
            final(self).spec_capacity() == old(self).spec_capacity(),
            match r {
                Some(item) => old(self)@.len() > 0 && item == old(self)@[0] && final(self)@ == old(
                    self,
                )@.drop_first(),
                None => old(self)@.len() == 0 && final(self)@ == old(self)@,
            },
    {
        if self.items.len() == 0 {
            None
        } else {
            let item = self.items.remove(0);
            proof {
                assert(self.items@ =~= old(self)@.drop_first());
            }
            Some(item)
        }
    }
}

/// Bounded delivery buffer that discards the oldest entry to make room for a
/// new arrival once full.
pub struct RingBuffer<T> {
    items: Vec<T>,
    capacity: usize,
}

impl<T> RingBuffer<T> {
    pub closed spec fn view(&self) -> Seq<T> {
        self.items@
    }

    pub closed spec fn spec_capacity(&self) -> nat {
        self.capacity as nat
    }

    pub open spec fn wf(&self) -> bool {
        self.view().len() <= self.spec_capacity()
    }

    pub fn new(capacity: usize) -> (r: RingBuffer<T>)
        ensures
            r.wf(),
            r@ == Seq::<T>::empty(),
            r.spec_capacity() == capacity,
    {
        RingBuffer { items: Vec::new(), capacity }
    }

    pub fn capacity(&self) -> (r: usize)
        ensures
            r == self.spec_capacity(),
    {
        self.capacity
    }

    pub fn len(&self) -> (r: usize)
        ensures
            r == self@.len(),
    {
        self.items.len()
    }

    /// Accepts the arrival, discarding the oldest entry when full.
    pub fn push(&mut self, item: T)
        requires
            old(self).wf(),
        ensures
            final(self).wf(),
            final(self).spec_capacity() == old(self).spec_capacity(),
            final(self)@ == ring_arrival(old(self)@, item, old(self).spec_capacity()),
    {
        if self.items.len() < self.capacity {
            self.items.push(item);
        } else if self.capacity > 0 {
            self.items.remove(0);
            self.items.push(item);
            proof {
                assert(self.items@ =~= old(self)@.drop_first().push(item));
            }
        }
    }

    /// Hands out the oldest retained message, if any.
    pub fn pop(&mut self) -> (r: Option<T>)
        requires
            old(self).wf(),
        ensures
            final(self).wf(),
            final(self).spec_capacity() == old(self).spec_capacity(),
            match r {
                Some(item) => old(self)@.len() > 0 && item == old(self)@[0] && final(self)@ == old(
                    self,
                )@.drop_first(),
                None => old(self)@.len() == 0 && final(self)@ == old(self)@,
            },
    {
        if self.items.len() == 0 {
            None
        } else {
            let item = self.items.remove(0);
            proof {
                assert(self.items@ =~= old(self)@.drop_first());
            }
            Some(item)
        }
    }
}

} // verus!
