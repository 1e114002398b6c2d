//! A fixed-capacity rolling series of samples.
//!
//! A [`HistoryBuffer`] keeps the most recent samples of one metric, oldest
//! first. Its model is a `Seq<u64>` together with a bound; every operation is
//! stated over [`appended`], the one step that changes the series.

use vstd::prelude::*;

verus! {

/// Number of samples a monitor's trend series holds.
pub const HISTORY_CAPACITY: usize = 100;

/// What a series holds once `value` has been appended to `samples` under the
/// bound `capacity`: the new sample goes to the end, and if that makes the
/// series longer than the bound, the oldest sample leaves.
pub open spec fn appended(samples: Seq<u64>, capacity: nat, value: u64) -> Seq<u64> {
    let grown = samples.push(value);
    if grown.len() > capacity {
        grown.skip(1)
    } else {
        grown
    }
}

/// The series after each of `values` has been appended in turn.
pub open spec fn appended_all(samples: Seq<u64>, capacity: nat, values: Seq<u64>) -> Seq<u64>
    decreases values.len(),
{
    if values.len() == 0 {
        samples
    } else {
        appended(appended_all(samples, capacity, values.drop_last()), capacity, values.last())
    }
}

/// A series of `count` samples that are all zero.
pub open spec fn zeros(count: nat) -> Seq<u64> {
    Seq::new(count, |i: int| 0u64)
}

/// A series within its bound stays within it under any run of appends, its
/// length grows by one per append until the bound is reached, and from then
/// on it is exactly the bound. In particular, after at least `capacity`
/// appends the series is full.
pub proof fn lemma_length_after_appends(samples: Seq<u64>, capacity: nat, values: Seq<u64>)
    requires
        samples.len() <= capacity,
    ensures
        appended_all(samples, capacity, values).len() <= capacity,
        appended_all(samples, capacity, values).len() == if samples.len() + values.len()
            <= capacity {
            samples.len() + values.len()
        } else {
            capacity
        },
        values.len() >= capacity ==> appended_all(samples, capacity, values).len() == capacity,
    decreases values.len(),
{
    if values.len() > 0 {
        lemma_length_after_appends(samples, capacity, values.drop_last());
    }
}

/// Appending to a full series drops exactly the oldest sample, moves every
/// other sample one place towards the front and puts the new one last.
pub proof fn lemma_append_to_full(samples: Seq<u64>, capacity: nat, value: u64)
    requires
        samples.len() == capacity,
        capacity > 0,
    ensures
        appended(samples, capacity, value) == samples.skip(1).push(value),
        appended(samples, capacity, value).len() == capacity,
        appended(samples, capacity, value)[capacity - 1] == value,
        forall|i: int|
            0 <= i < capacity - 1 ==> #[trigger] appended(samples, capacity, value)[i] == samples[i
                + 1],
{
}

/// Appending to a series that is not yet full keeps every sample and adds the
/// new one at the end.
pub proof fn lemma_append_below_capacity(samples: Seq<u64>, capacity: nat, value: u64)
    requires
        samples.len() < capacity,
    ensures
        appended(samples, capacity, value) == samples.push(value),
{
}

/// A rolling window over the most recent samples of one metric.
///
/// The view is the series held, oldest sample first. All room is set aside
/// when the window is made; appending writes one slot and never allocates,
/// so it takes constant time.
pub struct HistoryBuffer {
    slots: Vec<u64>,
    head: usize,
    len: usize,
}

impl View for HistoryBuffer {
    type V = Seq<u64>;

    closed spec fn view(&self) -> Seq<u64> {
        self.slots@.subrange(self.head as int, self.len as int) + self.slots@.subrange(
            0,
            self.head as int,
        )
    }
}

impl HistoryBuffer {
    #[verifier::type_invariant]
    spec fn well_formed(&self) -> bool {
        &&& self.len <= self.slots@.len()
        &&& self.head <= self.len
        &&& self.len < self.slots@.len() ==> self.head == 0
        &&& self.len == self.slots@.len() && self.len > 0 ==> self.head < self.len
    }

    /// The bound on the number of samples held.
    pub closed spec fn spec_capacity(&self) -> nat {
        self.slots@.len()
    }

    /// A full window of [`HISTORY_CAPACITY`] zero samples, so that a reader
    /// sees a series of full width before the first real sample arrives.
    pub fn new() -> (buffer: Self)
        ensures
            buffer@ == zeros(HISTORY_CAPACITY as nat),
            buffer.spec_capacity() == HISTORY_CAPACITY,
    {
        HistoryBuffer { slots: Self::slots_of(HISTORY_CAPACITY, 0), head: 0, len: HISTORY_CAPACITY }
    }

    /// An empty window that holds up to `capacity` samples.
    pub fn with_capacity(capacity: usize) -> (buffer: Self)
        ensures
            buffer@ == Seq::<u64>::empty(),
            buffer.spec_capacity() == capacity,
    {
        HistoryBuffer { slots: Self::slots_of(capacity, 0), head: 0, len: 0 }
    }

    /// Room for `capacity` samples, each slot holding `value`.
    fn slots_of(capacity: usize, value: u64) -> (slots: Vec<u64>)
        ensures
            slots@ == Seq::new(capacity as nat, |i: int| value),
    {
        let mut slots: Vec<u64> = Vec::new();
        let mut count: usize = 0;
        while count < capacity
            invariant
                count <= capacity,
                slots@ == Seq::new(count as nat, |i: int| value),
            decreases capacity - count,
        {
            slots.push(value);
            count = count + 1;
        }
        slots
    }

    /// Appends `value` as the newest sample; a full window gives up its
    /// oldest sample to make room.
    pub fn append(&mut self, value: u64)
        ensures
            final(self)@ == appended(old(self)@, old(self).spec_capacity(), value),
            final(self).spec_capacity() == old(self).spec_capacity(),
            old(self)@.len() <= old(self).spec_capacity(),
            final(self)@.len() <= final(self).spec_capacity(),
        no_unwind
    {
        proof {
            use_type_invariant(&*self);
        }
        let capacity = self.slots.len();
        if self.len < capacity {
            let at = self.len;
            self.slots[at] = value;
            self.len = at + 1;
        } else if capacity > 0 {
            let at = self.head;
            self.slots[at] = value;
            self.head = if at + 1 == capacity {
                0
            } else {
                at + 1
            };
        }
    }

    /// The samples held, oldest first.
    pub fn values(&self) -> (samples: Vec<u64>)
        ensures
            samples@ == self@,
            samples@.len() <= self.spec_capacity(),
    {
        proof {
            use_type_invariant(self);
        }
        let mut samples: Vec<u64> = Vec::with_capacity(self.len);
        let mut i: usize = self.head;
        while i < self.len
            invariant
                self.head <= i <= self.len <= self.slots@.len(),
                samples@ == self.slots@.subrange(self.head as int, i as int),
            decreases self.len - i,
        {
            samples.push(self.slots[i]);
            i = i + 1;
        }
        let mut j: usize = 0;
        while j < self.head
            invariant
                j <= self.head <= self.len <= self.slots@.len(),
                samples@ == self.slots@.subrange(self.head as int, self.len as int)
                    + self.slots@.subrange(0, j as int),
            decreases self.head - j,
        {
            samples.push(self.slots[j]);
            j = j + 1;
            assert(samples@ =~= self.slots@.subrange(self.head as int, self.len as int)
                + self.slots@.subrange(0, j as int));
        }
        samples
    }

    /// The number of samples held.
    pub fn len(&self) -> (count: usize)
        ensures
            count == self@.len(),
            count <= self.spec_capacity(),
    {
        proof {
            use_type_invariant(self);
        }
        self.len
    }

    /// The bound on the number of samples held.
    pub fn capacity(&self) -> (capacity: usize)
        ensures
            capacity == self.spec_capacity(),
    {
        self.slots.len()
    }
}

} // verus!
