//! The boundary mechanisms between the user interface and a capture
//! worker: a latest-value-wins configuration slot and a bounded FIFO
//! command queue.  The surrounding application shares them between
//! threads; their semantics are fully specified and verified here.

use std::collections::VecDeque;
use vstd::prelude::*;

verus! {

/// Abstract state of a [`LatestSlot`]: the stored value, how many writes
/// the slot has taken, and how many of them the reader has observed.
pub struct SlotModel<T> {
    pub value: T,
    pub writes: nat,
    pub seen: nat,
}

/// Effect of one write on the abstract state of a slot: the value is
/// overwritten, never queued.
pub open spec fn slot_send<T>(m: SlotModel<T>, v: T) -> SlotModel<T> {
    SlotModel { value: v, writes: m.writes + 1, seen: m.seen }
}

/// Effect of a whole burst of writes, first write first.
pub open spec fn slot_send_all<T>(m: SlotModel<T>, updates: Seq<T>) -> SlotModel<T>
    decreases updates.len(),
{
    if updates.len() == 0 {
        m
    } else {
        slot_send(slot_send_all(m, updates.drop_last()), updates.last())
    }
}

/// Law: configuration writes coalesce.  After any non-empty burst of
/// writes the slot holds exactly the last value of the burst, the burst
/// left a pending change for the reader to notice, and the reader's next
/// observation therefore sees exactly the last update.
pub proof fn lemma_updates_coalesce<T>(m: SlotModel<T>, updates: Seq<T>)
    requires
        updates.len() > 0,
        m.seen <= m.writes,
    ensures
        slot_send_all(m, updates).value == updates.last(),
        slot_send_all(m, updates).writes == m.writes + updates.len(),
        slot_send_all(m, updates).seen == m.seen,
        slot_send_all(m, updates).seen < slot_send_all(m, updates).writes,
    decreases updates.len(),
{
    if updates.len() == 1 {
        assert(updates.drop_last().len() == 0);
        assert(slot_send_all(m, updates.drop_last()) == m);
    } else {
        lemma_updates_coalesce(m, updates.drop_last());
    }
}

/// A single-slot, latest-value-wins channel with a "changed since last
/// observed" flag: the configuration channel of the capture pipeline.  A
/// queue would either lose updates under rapid edits or stall the writer;
/// this slot never blocks and never shows the reader anything but the
/// newest value.
pub struct LatestSlot<T> {
    value: T,
    writes: u64,
    seen: u64,
}

impl<T> View for LatestSlot<T> {
    type V = SlotModel<T>;

    closed spec fn view(&self) -> SlotModel<T> {
        SlotModel { value: self.value, writes: self.writes as nat, seen: self.seen as nat }
    }
}

impl<T: Copy> LatestSlot<T> {
    /// A slot holding an initial value that counts as already observed.
    pub fn new(initial: T) -> (r: Self)
        ensures
            r@.value == initial,
            r@.writes == 0,
            r@.seen == 0,
    {
        LatestSlot { value: initial, writes: 0, seen: 0 }
    }

    /// Publishes a new value, overwriting whatever was there.  Never
    /// blocks; a burst of sends coalesces into the last one.
    pub fn send(&mut self, v: T)
        requires
            old(self)@.writes < u64::MAX,
        ensures
            final(self)@ == slot_send(old(self)@, v),
    {
        self.value = v;
        self.writes = self.writes + 1;
    }

    /// True when a write has happened that the reader has not observed
    /// through [`Self::borrow_and_update`] yet.
    pub fn has_changed(&self) -> (r: bool)
        ensures
            r == (self@.writes != self@.seen),
    {
        self.writes != self.seen
    }

    /// Reads the newest value and marks everything written so far as
    /// observed.
    pub fn borrow_and_update(&mut self) -> (r: T)
        ensures
            r == old(self)@.value,
            final(self)@.value == old(self)@.value,
            final(self)@.writes == old(self)@.writes,
            final(self)@.seen == old(self)@.writes,
    {
        self.seen = self.writes;
        self.value
    }

    /// How many writes the slot has taken so far.
    pub fn send_count(&self) -> (r: u64)
        ensures
            r == self@.writes,
    {
        self.writes
    }

    /// Reads the newest value without marking it observed.
    pub fn borrow(&self) -> (r: T)
        ensures
            r == self@.value,
    {
        self.value
    }
}

/// A bounded multi-writer, single-reader FIFO queue: the control-command
/// and notification channels of the capture pipeline.  Enqueueing never
/// blocks; on overflow the value is handed back to the caller.
pub struct BoundedQueue<T> {
    items: VecDeque<T>,
    cap: usize,
}

impl<T> View for BoundedQueue<T> {
    type V = Seq<T>;

    closed spec fn view(&self) -> Seq<T> {
        self.items@
    }
}

impl<T> BoundedQueue<T> {
    /// How many items the queue accepts before rejecting sends.
    pub closed spec fn capacity(&self) -> int {
        self.cap as int
    }

    /// An empty queue that accepts up to `cap` items.
    pub fn new(cap: usize) -> (r: Self)
        requires
            cap >= 1,
        ensures
            r@ =~= Seq::<T>::empty(),
            r.capacity() == cap,
    {
        BoundedQueue { items: VecDeque::new(), cap }
    }

    /// Enqueues at the back if there is room; hands the value back
    /// unqueued otherwise.  Never blocks.
    pub fn try_send(&mut self, v: T) -> (r: Result<(), T>)
        ensures
            old(self)@.len() < old(self).capacity() ==> r is Ok && final(self)@ == old(self)@.push(
                v,
            ),
            old(self)@.len() >= old(self).capacity() ==> final(self)@ == old(self)@ && (r matches
            Err(w) && w == v),
            final(self).capacity() == old(self).capacity(),
    {
        if self.items.len() < self.cap {
            self.items.push_back(v);
            Ok(())
        } else {
            Err(v)
        }
    }

    /// Dequeues the oldest item, if any.  Never blocks.
    pub fn try_recv(&mut self) -> (r: Option<T>)
        ensures
            old(self)@.len() == 0 ==> r is None && final(self)@ == old(self)@,
            old(self)@.len() > 0 ==> (r matches Some(w) && w == old(self)@[0]) && final(self)@
                == old(self)@.drop_first(),
            final(self).capacity() == old(self).capacity(),
    {
        self.items.pop_front()
    }

    /// True when nothing is queued.
    pub fn is_empty(&self) -> (r: bool)
        ensures
            r == (self@.len() == 0),
    {
        self.items.len() == 0
    }

    /// How many items are queued.
    pub fn len(&self) -> (r: usize)
        ensures
            r == self@.len(),
    {
        self.items.len()
    }
}

} // verus!
