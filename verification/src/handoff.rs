//! The bounded hand-off between the thread that captures audio and the
//! thread that analyses it. When the analysing side falls behind, the oldest
//! samples give way: the queue never grows beyond its capacity and offering
//! a block never waits.

use vstd::prelude::*;
use vstd::slice::slice_subrange;

verus! {

/// What a hand-off holds, as plain values.
pub struct HandoffView {
    /// Samples offered and not yet taken, oldest first.
    pub queued: Seq<u32>,
    /// Largest number of samples the hand-off keeps.
    pub capacity: nat,
}

impl HandoffView {
    /// The queue is within its capacity.
    pub open spec fn wf(self) -> bool {
        self.queued.len() <= self.capacity
    }

    /// Number of samples that give way when `block` is offered, counted from
    /// the oldest.
    pub open spec fn overflow(self, block: Seq<u32>) -> int {
        if self.queued.len() + block.len() > self.capacity {
            self.queued.len() + block.len() - self.capacity
        } else {
            0
        }
    }

    /// The state after `block` was offered: the block stands behind what was
    /// queued, and the oldest samples beyond the capacity are gone.
    pub open spec fn offered(self, block: Seq<u32>) -> HandoffView {
        HandoffView { queued: (self.queued + block).skip(self.overflow(block)), ..self }
    }

    /// The state after everything was taken.
    pub open spec fn emptied(self) -> HandoffView {
        HandoffView { queued: Seq::empty(), ..self }
    }
}

/// A queue of samples with a fixed capacity that drops its oldest samples
/// when a new block does not fit.
pub struct Handoff {
    queued: Vec<u32>,
    capacity: usize,
}

impl View for Handoff {
    type V = HandoffView;

    closed spec fn view(&self) -> HandoffView {
        HandoffView { queued: self.queued@, capacity: self.capacity as nat }
    }
}

impl Handoff {
    /// An empty hand-off that keeps at most `capacity` samples.
    pub fn new(capacity: usize) -> (handoff: Self)
        ensures
            handoff@.wf(),
            handoff@.queued == Seq::<u32>::empty(),
            handoff@.capacity == capacity,
    {
        Handoff { queued: Vec::new(), capacity }
    }

    /// Largest number of samples the hand-off keeps.
    pub fn capacity(&self) -> (capacity: usize)
        ensures
            capacity == self@.capacity,
    {
        self.capacity
    }

    /// Number of samples offered and not yet taken.
    pub fn len(&self) -> (count: usize)
        ensures
            count == self@.queued.len(),
    {
        self.queued.len()
    }

    /// Queues one block behind the samples already waiting and returns how
    /// many of the oldest samples had to give way for it.
    pub fn offer(&mut self, block: &[u32]) -> (dropped: usize)
        requires
            old(self)@.wf(),
        ensures
            final(self)@.wf(),
            final(self)@ == old(self)@.offered(block@),
            dropped == old(self)@.overflow(block@),
    {
        let size: usize = block.len();
        let waiting: usize = self.queued.len();
        let ghost all = self.queued@ + block@;
        if size >= self.capacity {
            let start: usize = size - self.capacity;
            let newest = slice_subrange(block, start, size);
            self.queued.clear();
            self.queued.extend_from_slice(newest);
            assert(self.queued@ =~= all.skip(start + waiting));
            start + waiting
        } else {
            let room: usize = self.capacity - size;
            let dropped: usize = if waiting > room {
                waiting - room
            } else {
                0
            };
            if dropped > 0 {
                let mut kept = self.queued.split_off(dropped);
                std::mem::swap(&mut kept, &mut self.queued);
            }
            self.queued.extend_from_slice(block);
            assert(self.queued@ =~= all.skip(dropped as int));
            dropped
        }
    }

    /// Takes every queued sample, oldest first, and leaves the hand-off
    /// empty.
    pub fn take_all(&mut self) -> (samples: Vec<u32>)
        ensures
            samples@ == old(self)@.queued,
            final(self)@ == old(self)@.emptied(),
    {
        let mut samples: Vec<u32> = Vec::new();
        std::mem::swap(&mut samples, &mut self.queued);
        samples
    }
}

/// A block that fits beside what is queued is queued whole, and nothing
/// gives way.
pub proof fn lemma_offer_with_room_keeps_all(state: HandoffView, block: Seq<u32>)
    requires
        state.queued.len() + block.len() <= state.capacity,
    ensures
        state.overflow(block) == 0,
        state.offered(block).queued == state.queued + block,
{
    assert((state.queued + block).skip(0) =~= state.queued + block);
}

/// However much is offered, the queue stays within its capacity, and what it
/// holds afterwards are the newest samples in their order: a block no longer
/// than the capacity is at the queue's end in full.
pub proof fn lemma_offer_is_bounded_and_keeps_newest(state: HandoffView, block: Seq<u32>)
    requires
        state.wf(),
    ensures
        state.offered(block).wf(),
        state.offered(block).capacity == state.capacity,
        state.offered(block).queued.len() == state.queued.len() + block.len() - state.overflow(
            block,
        ),
        block.len() <= state.capacity ==> state.offered(block).queued.skip(
            state.offered(block).queued.len() - block.len(),
        ) == block,
{
    let all = state.queued + block;
    let after = state.offered(block).queued;
    if block.len() <= state.capacity {
        assert(after.skip(after.len() - block.len()) =~= block);
    }
}

/// Offering blocks one after another without ever taking keeps the queue
/// within its capacity after each of them.
pub proof fn lemma_offers_stay_bounded(state: HandoffView, blocks: Seq<Seq<u32>>)
    requires
        state.wf(),
    ensures
        offered_all(state, blocks).wf(),
        offered_all(state, blocks).capacity == state.capacity,
    decreases blocks.len(),
{
    if blocks.len() > 0 {
        lemma_offers_stay_bounded(state, blocks.drop_last());
        lemma_offer_is_bounded_and_keeps_newest(
            offered_all(state, blocks.drop_last()),
            blocks.last(),
        );
    }
}

/// The state after each of `blocks` was offered in turn.
pub open spec fn offered_all(state: HandoffView, blocks: Seq<Seq<u32>>) -> HandoffView
    decreases blocks.len(),
{
    if blocks.len() == 0 {
        state
    } else {
        offered_all(state, blocks.drop_last()).offered(blocks.last())
    }
}

} // verus!
