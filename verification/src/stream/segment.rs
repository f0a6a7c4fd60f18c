//! Fixed-size piece of an unbounded log.
use vstd::prelude::*;

verus! {

/// Slots per segment.
pub const SEG_SIZE: usize = 256;

/// `SEG_SIZE` consecutive slots, the first of which has sequence number
/// `base_seq`.
pub struct Segment<T> {
    pub base_seq: u64,
    pub slots: Vec<Option<T>>,
}

impl<T> Segment<T> {
    /// Validity: the segment has its slots, and all of them can be numbered.
    pub open spec fn wf(&self) -> bool {
        &&& self.slots@.len() == SEG_SIZE
        &&& self.base_seq + SEG_SIZE <= u64::MAX
    }

    /// A segment with free slots.
    pub fn new(base_seq: u64) -> (s: Self)
        requires
            base_seq + SEG_SIZE <= u64::MAX,
        ensures
            s.wf(),
            s.base_seq == base_seq,
            forall|i: int| 0 <= i < SEG_SIZE ==> (#[trigger] s.slots@[i]) is None,
    {
        let mut slots: Vec<Option<T>> = Vec::new();
        let mut i: usize = 0;
        while i < SEG_SIZE
            invariant
                i <= SEG_SIZE,
                slots@.len() == i,
                forall|j: int| 0 <= j < i ==> (#[trigger] slots@[j]) is None,
            decreases SEG_SIZE - i,
        {
            slots.push(None);
            i = i + 1;
        }
        Segment { base_seq, slots }
    }

    /// True iff `seq` is a sequence number of this segment.
    pub fn contains(&self, seq: u64) -> (b: bool)
        requires
            self.wf(),
        ensures
            b == (self.base_seq <= seq < self.base_seq + SEG_SIZE),
    {
        seq >= self.base_seq && seq < self.base_seq + SEG_SIZE as u64
    }

    /// Slot of a sequence number of this segment.
    pub fn idx(&self, seq: u64) -> (i: usize)
        requires
            self.wf(),
            self.base_seq <= seq < self.base_seq + SEG_SIZE,
        ensures
            i == seq - self.base_seq,
            i < SEG_SIZE,
    {
        (seq - self.base_seq) as usize
    }
}

} // verus!
