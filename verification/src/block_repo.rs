//! The blocks known to the ledger, asked only for the highest slot among them.

use vstd::prelude::*;

verus! {

/// The highest slot of a sequence, or `None` for the empty one.
pub open spec fn max_slot(slots: Seq<i64>) -> Option<i64>
    decreases slots.len(),
{
    if slots.len() == 0 {
        None
    } else {
        match max_slot(slots.drop_last()) {
            None => Some(slots.last()),
            Some(m) => Some(
                if m >= slots.last() {
                    m
                } else {
                    slots.last()
                },
            ),
        }
    }
}

/// `max_slot` is `None` only for the empty sequence; otherwise it is one of
/// the slots, and none of them lies above it.
pub proof fn lemma_max_slot(slots: Seq<i64>)
    ensures
        max_slot(slots) is None <==> slots.len() == 0,
        max_slot(slots) matches Some(m) ==> slots.contains(m) && forall|i: int|
            0 <= i < slots.len() ==> slots[i] <= m,
    decreases slots.len(),
{
    if slots.len() > 0 {
        let front = slots.drop_last();
        lemma_max_slot(front);
        let m = max_slot(slots).unwrap();
        if m == slots.last() {
            assert(slots[slots.len() - 1] == m);
        } else {
            let w = choose|w: int| 0 <= w < front.len() && front[w] == m;
            assert(slots[w] == m);
        }
        assert forall|i: int| 0 <= i < slots.len() implies slots[i] <= m by {
            if i < front.len() {
                assert(front[i] == slots[i]);
            }
        }
    }
}

/// The slots of the blocks seen so far, in the order they were recorded.
#[derive(Debug)]
pub struct BlockRepo {
    slots: Vec<i64>,
}

impl BlockRepo {
    /// The slots recorded, oldest first.
    pub closed spec fn slots(&self) -> Seq<i64> {
        self.slots@
    }

    /// A store that knows no block.
    pub fn new() -> (repo: Self)
        ensures
            repo.slots() == Seq::<i64>::empty(),
    {
        BlockRepo { slots: Vec::new() }
    }

    /// Records the block at `slot`.
    pub fn record(&mut self, slot: i64)
        ensures
            final(self).slots() == old(self).slots().push(slot),
    {
        self.slots.push(slot);
    }

    /// The highest slot recorded, if any block was.
    pub fn show(&self) -> (found: Option<i64>)
        ensures
            found == max_slot(self.slots()),
    {
        let mut found: Option<i64> = None;
        let mut i: usize = 0;
        assert(self.slots@.take(0) =~= Seq::<i64>::empty());
        while i < self.slots.len()
            invariant
                i <= self.slots.len(),
                found == max_slot(self.slots@.take(i as int)),
            decreases self.slots.len() - i,
        {
            let slot = self.slots[i];
            assert(self.slots@.take(i + 1).drop_last() =~= self.slots@.take(i as int));
            assert(self.slots@.take(i + 1).last() == slot);
            found = match found {
                None => Some(slot),
                Some(m) => Some(
                    if m >= slot {
                        m
                    } else {
                        slot
                    },
                ),
            };
            i += 1;
        }
        assert(self.slots@.take(i as int) =~= self.slots@);
        found
    }
}

} // verus!
