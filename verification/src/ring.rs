//! The ring that carries decision records from the classifier to the
//! consumer. Delivery is best effort: a full ring loses what is handed to it.

use crate::buffers::{buffer_contents, fill_buffer};
use crate::events::{spec_encode, PacketLog};
use bytes::BytesMut;
use vstd::prelude::*;

verus! {

/// The usual capacity of a ring, in records.
pub const EVENTS_MAX_ENTRIES: u32 = 1024;

/// What a ring of the given capacity holds after `record` was handed to it:
/// the record's bytes join the queue if there is room, and are lost if not.
pub open spec fn after_output(queue: Seq<Seq<u8>>, capacity: nat, record: PacketLog) -> Seq<
    Seq<u8>,
> {
    if queue.len() < capacity {
        queue.push(spec_encode(record))
    } else {
        queue
    }
}

/// The ring of one CPU: encoded records on their way from the classifier to
/// the consumer, the oldest first. It never blocks and never grows beyond its
/// capacity.
pub struct EventRingBuffer {
    slots: Vec<[u8; 12]>,
    max_entries: u32,
}

impl View for EventRingBuffer {
    type V = Seq<Seq<u8>>;

    closed spec fn view(&self) -> Seq<Seq<u8>> {
        Seq::new(self.slots@.len(), |i: int| self.slots@[i]@)
    }
}

impl EventRingBuffer {
    #[verifier::type_invariant]
    spec fn within_capacity(self) -> bool {
        self.slots@.len() <= self.max_entries
    }

    /// The number of records that the ring can hold.
    pub closed spec fn capacity(self) -> nat {
        self.max_entries as nat
    }

    /// An empty ring that can hold `max_entries` records.
    pub fn with_max_entries(max_entries: u32) -> (ring: Self)
        ensures
            ring@ == Seq::<Seq<u8>>::empty(),
            ring.capacity() == max_entries,
    {
        let ring = EventRingBuffer { slots: Vec::new(), max_entries };
        assert(ring@ =~= Seq::<Seq<u8>>::empty());
        ring
    }

    /// The number of records waiting, which never exceeds the capacity.
    pub fn len(&self) -> (count: usize)
        ensures
            count == self@.len(),
            count <= self.capacity(),
    {
        proof {
            use_type_invariant(self);
        }
        self.slots.len()
    }

    /// Hands a record to the ring. Nothing tells the caller whether it was
    /// queued or lost.
    pub fn output(&mut self, record: &PacketLog)
        ensures
            final(self).capacity() == old(self).capacity(),
            final(self)@ == after_output(old(self)@, old(self).capacity(), *record),
    {
        proof {
            use_type_invariant(&*self);
        }
        if self.slots.len() < self.max_entries as usize {
            let encoded = record.encode();
            // the queue is taken out while it grows and put back within capacity
            let mut slots = Vec::new();
            core::mem::swap(&mut self.slots, &mut slots);
            slots.push(encoded);
            core::mem::swap(&mut self.slots, &mut slots);
            assert(self@ =~= old(self)@.push(spec_encode(*record)));
        }
    }

    /// Moves the oldest records into `buffers`, one record into each buffer
    /// from the first on, until the ring is empty or the buffers are used up.
    /// Returns how many records were moved.
    pub fn read_events(&mut self, buffers: &mut Vec<BytesMut>) -> (read: usize)
        ensures
            final(self).capacity() == old(self).capacity(),
            read == old(self)@.len() || read == old(buffers)@.len(),
            read <= old(self)@.len(),
            read <= old(buffers)@.len(),
            final(self)@ == old(self)@.skip(read as int),
            final(buffers)@.len() == old(buffers)@.len(),
            forall|i: int|
                0 <= i < read ==> buffer_contents(&#[trigger] final(buffers)@[i]) == old(self)@[i],
            forall|i: int|
                read <= i < old(buffers)@.len() ==> #[trigger] final(buffers)@[i] == old(
                    buffers,
                )@[i],
    {
        proof {
            use_type_invariant(&*self);
        }
        let waiting = self.slots.len();
        let read = if waiting < buffers.len() {
            waiting
        } else {
            buffers.len()
        };
        let mut i: usize = 0;
        while i < read
            invariant
                i <= read,
                read <= self.slots@.len(),
                read <= buffers@.len(),
                buffers@.len() == old(buffers)@.len(),
                self.slots@ == old(self).slots@,
                self.max_entries == old(self).max_entries,
                forall|j: int|
                    0 <= j < i ==> buffer_contents(&#[trigger] buffers@[j]) == self.slots@[j]@,
                forall|j: int| i <= j < buffers@.len() ==> #[trigger] buffers@[j] == old(buffers)@[j],
            decreases read - i,
        {
            let record = self.slots[i];
            fill_buffer(&mut buffers[i], record.as_slice());
            i = i + 1;
        }
        let mut rest: Vec<[u8; 12]> = Vec::new();
        let mut k: usize = read;
        while k < waiting
            invariant
                read <= k <= waiting,
                waiting == self.slots@.len(),
                self.slots@ == old(self).slots@,
                self.max_entries == old(self).max_entries,
                rest@ == self.slots@.subrange(read as int, k as int),
            decreases waiting - k,
        {
            rest.push(self.slots[k]);
            assert(rest@ =~= self.slots@.subrange(read as int, k + 1));
            k = k + 1;
        }
        self.slots = rest;
        assert(self@ =~= old(self)@.skip(read as int));
        read
    }
}

} // verus!
