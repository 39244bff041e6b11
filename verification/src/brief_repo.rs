//! The store of chain briefs: written in batches, never changed afterwards.

use crate::model::BriefRecord;
use vstd::prelude::*;

verus! {

/// The brief records stored so far, in the order they were written.
#[derive(Debug)]
pub struct BriefRepo {
    records: Vec<BriefRecord>,
}

impl BriefRepo {
    /// The records held, oldest first.
    pub closed spec fn records(&self) -> Seq<BriefRecord> {
        self.records@
    }

    /// An empty store.
    pub fn new() -> (repo: Self)
        ensures
            repo.records() == Seq::<BriefRecord>::empty(),
    {
        BriefRepo { records: Vec::new() }
    }

    /// How many records the store holds.
    pub fn len(&self) -> (n: usize)
        ensures
            n == self.records().len(),
    {
        self.records.len()
    }

    /// Appends the batch in order and returns the rows written: all of it.
    pub fn insert(&mut self, records: Vec<BriefRecord>) -> (written: Vec<BriefRecord>)
        ensures
            final(self).records() == old(self).records() + records@,
            written@ == records@,
    {
        let mut i: usize = 0;
        assert(self.records@ =~= old(self).records() + records@.take(0));
        while i < records.len()
            invariant
                i <= records.len(),
                self.records@ == old(self).records() + records@.take(i as int),
            decreases records.len() - i,
        {
            self.records.push(records[i]);
            assert(self.records@ =~= old(self).records() + records@.take(i + 1));
            i += 1;
        }
        assert(records@.take(i as int) =~= records@);
        records
    }
}

} // verus!
