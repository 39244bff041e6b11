//! The ledger as a lane reads it: transactions in ascending slot order,
//! queried by closed slot ranges.

use crate::model::{views, TransactionRow, TransactionView};
use vstd::prelude::*;

verus! {

/// A closed range of slots that was asked for.
#[derive(Clone, Copy, Debug, PartialEq, Eq, Structural)]
pub struct SlotRange {
    pub from_slot: i64,
    pub to_slot: i64,
}

/// The predicate "lies in the closed range", for use with `Seq::filter`.
pub open spec fn tx_in_range(from_slot: i64, to_slot: i64) -> spec_fn(TransactionView) -> bool {
    |tx: TransactionView| from_slot <= tx.slot <= to_slot
}

/// The slots of the transactions never decrease along the sequence.
pub open spec fn ascending(txs: Seq<TransactionView>) -> bool {
    forall|i: int, j: int| 0 <= i <= j < txs.len() ==> txs[i].slot <= txs[j].slot
}

/// The transactions of the ledger, and a log of the ranges asked for.
#[derive(Debug)]
pub struct TransactionRepo {
    rows: Vec<TransactionRow>,
    requests: Vec<SlotRange>,
}

impl TransactionRepo {
    /// The transactions held, in ledger order.
    pub closed spec fn rows(&self) -> Seq<TransactionView> {
        views(self.rows@)
    }

    /// The ranges asked for so far, oldest first.
    pub closed spec fn requests(&self) -> Seq<SlotRange> {
        self.requests@
    }

    /// The ledger is in ascending slot order.
    pub open spec fn wf(&self) -> bool {
        ascending(self.rows())
    }

    /// An empty ledger that was never queried.
    pub fn new() -> (repo: Self)
        ensures
            repo.wf(),
            repo.rows() == Seq::<TransactionView>::empty(),
            repo.requests() == Seq::<SlotRange>::empty(),
    {
        let repo = TransactionRepo { rows: Vec::new(), requests: Vec::new() };
        assert(repo.rows() =~= Seq::<TransactionView>::empty());
        repo
    }

    /// Appends a transaction, unless its slot lies below the last one held:
    /// the ledger only grows forward. Tells whether it was appended.
    pub fn append(&mut self, row: TransactionRow) -> (appended: bool)
        requires
            old(self).wf(),
        ensures
            final(self).wf(),
            final(self).requests() == old(self).requests(),
            appended == (old(self).rows().len() == 0 || old(self).rows().last().slot <= row.slot),
            appended ==> final(self).rows() == old(self).rows().push(row@),
            !appended ==> final(self).rows() == old(self).rows(),
    {
        let n = self.rows.len();
        if n > 0 {
            assert(self.rows().last().slot == self.rows@[n - 1].slot);
            if self.rows[n - 1].slot > row.slot {
                return false;
            }
        }
        let ghost pushed = row@;
        self.rows.push(row);
        assert(self.rows() =~= old(self).rows().push(pushed));
        true
    }

    /// How many transactions the ledger holds.
    pub fn len(&self) -> (n: usize)
        ensures
            n == self.rows().len(),
    {
        self.rows.len()
    }

    /// How many range queries were issued against the ledger.
    pub fn request_count(&self) -> (n: usize)
        ensures
            n == self.requests().len(),
    {
        self.requests.len()
    }

    /// The transactions whose slot lies in the closed range, in ledger order.
    /// The query is noted in the log.
    pub fn range(&mut self, from_slot: i64, to_slot: i64) -> (found: Vec<TransactionRow>)
        requires
            old(self).wf(),
        ensures
            final(self).wf(),
            final(self).rows() == old(self).rows(),
            final(self).requests() == old(self).requests().push(SlotRange { from_slot, to_slot }),
            views(found@) == old(self).rows().filter(tx_in_range(from_slot, to_slot)),
    {
        self.requests.push(SlotRange { from_slot, to_slot });
        let ghost pred = tx_in_range(from_slot, to_slot);
        let mut found: Vec<TransactionRow> = Vec::new();
        let mut i: usize = 0;
        assert(self.rows().take(0) =~= Seq::<TransactionView>::empty());
        assert(Seq::<TransactionView>::empty().filter(pred) =~= Seq::<TransactionView>::empty())
            by {
            reveal(Seq::filter);
        }
        assert(views(found@) =~= self.rows().take(0).filter(pred));
        while i < self.rows.len()
            invariant
                i <= self.rows.len(),
                pred == tx_in_range(from_slot, to_slot),
                views(found@) == self.rows().take(i as int).filter(pred),
            decreases self.rows.len() - i,
        {
            let ghost before = self.rows().take(i as int);
            let ghost tx = self.rows@[i as int]@;
            let ghost old_found = views(found@);
            assert(self.rows()[i as int] == tx);
            if from_slot <= self.rows[i].slot && self.rows[i].slot <= to_slot {
                found.push(self.rows[i].clone());
                assert(views(found@) =~= old_found.push(tx));
            }
            proof {
                assert(self.rows().take(i + 1) =~= before.push(tx));
                before.lemma_filter_push(tx, pred);
            }
            i += 1;
        }
        assert(self.rows().take(i as int) =~= self.rows());
        found
    }
}

} // verus!
