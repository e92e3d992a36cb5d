use vstd::prelude::*;

verus! {

/// One telemetry slot: a payload tagged with the sequence number of the
/// iteration that produced it.
#[derive(Debug)]
pub struct TelemetrySlot<T> {
    pub sequence: u64,
    pub payload: T,
}

/// A bounded ring dedicated to one telemetry channel.  Publishing never
/// waits and never grows the ring past its depth: once full, each publish
/// overwrites the oldest slot.  An external reader can detect dropped or
/// reordered payloads from the sequence tags.
#[derive(Debug)]
pub struct TelemetryRing<T> {
    pub depth: usize,
    pub next: usize,
    pub slots: Vec<TelemetrySlot<T>>,
}

/// What one publish of a payload with the given view leaves behind:
/// appended while the ring still fills, otherwise written over the oldest
/// slot, every other slot untouched.
pub open spec fn spec_published<T: View>(
    before: TelemetryRing<T>,
    after: TelemetryRing<T>,
    payload: <T as View>::V,
    sequence: u64,
) -> bool {
    &&& after.depth == before.depth
    &&& if before.slots.len() < before.depth {
        &&& after.slots.len() == before.slots.len() + 1
        &&& (#[trigger] after.slots[before.slots.len() as int]).sequence == sequence
        &&& after.slots[before.slots.len() as int].payload@ == payload
        &&& forall|i: int|
            0 <= i < before.slots.len() ==> #[trigger] after.slots[i] == before.slots[i]
    } else {
        &&& after.slots.len() == before.slots.len()
        &&& (#[trigger] after.slots[before.next as int]).sequence == sequence
        &&& after.slots[before.next as int].payload@ == payload
        &&& forall|i: int|
            0 <= i < before.slots.len() && i != before.next
                ==> #[trigger] after.slots[i] == before.slots[i]
    }
}

impl<T> TelemetryRing<T> {
    /// The ring never exceeds its depth, and `next` walks the slots
    /// circularly: while filling it sits at the insertion point, once full
    /// it marks the oldest slot.
    pub open spec fn wf(&self) -> bool {
        &&& self.depth >= 1
        &&& self.slots.len() <= self.depth
        &&& if self.slots.len() < self.depth {
            self.next == self.slots.len()
        } else {
            self.next < self.depth
        }
    }

    /// An empty ring of the given depth.
    pub fn new(depth: usize) -> (ring: TelemetryRing<T>)
        requires
            depth >= 1,
        ensures
            ring.wf(),
            ring.depth == depth,
            ring.slots.len() == 0,
    {
        TelemetryRing { depth, next: 0, slots: Vec::new() }
    }

    /// Number of occupied slots (at most the depth).
    pub fn len(&self) -> (n: usize)
        ensures
            n == self.slots.len(),
    {
        self.slots.len()
    }

    /// The slot at position `i` in storage order.
    pub fn get(&self, i: usize) -> (slot: &TelemetrySlot<T>)
        requires
            i < self.slots.len(),
        ensures
            slot == self.slots[i as int],
    {
        &self.slots[i]
    }

    /// Put one payload into the ring: appended while the ring still
    /// fills, thereafter overwriting the oldest slot in place.
    pub fn publish(&mut self, payload: T, sequence: u64)
        requires
            old(self).wf(),
        ensures
            final(self).wf(),
            final(self).depth == old(self).depth,
            old(self).slots.len() < old(self).depth ==> {
                &&& final(self).slots@ == old(self).slots@.push(
                    TelemetrySlot { sequence, payload },
                )
                &&& final(self).next == (
                    if old(self).slots.len() + 1 < old(self).depth {
                        old(self).slots.len() + 1
                    } else {
                        0int
                    }
                )
            },
            old(self).slots.len() == old(self).depth ==> {
                &&& final(self).slots@ == old(self).slots@.update(
                    old(self).next as int,
                    TelemetrySlot { sequence, payload },
                )
                &&& final(self).next == (
                    if old(self).next + 1 < old(self).depth {
                        old(self).next + 1
                    } else {
                        0int
                    }
                )
            },
    {
        let slot = TelemetrySlot { sequence, payload };
        if self.slots.len() < self.depth {
            self.slots.push(slot);
            if self.slots.len() < self.depth {
                self.next = self.slots.len();
            } else {
                self.next = 0;
            }
        } else {
            let i = self.next;
            self.slots.set(i, slot);
            if i + 1 < self.depth {
                self.next = i + 1;
            } else {
                self.next = 0;
            }
        }
    }
}

} // verus!
