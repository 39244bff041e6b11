//! The audit trail of accounts: append-only, read by closed slot ranges.

use crate::model::AccountAuditRow;
use vstd::prelude::*;

verus! {

/// The predicate "lies in the closed range", for use with `Seq::filter`.
pub open spec fn audit_in_range(from_slot: i64, to_slot: i64) -> spec_fn(
    AccountAuditRow,
) -> bool {
    |row: AccountAuditRow| from_slot <= row.slot <= to_slot
}

/// The audit rows written so far, oldest first.
#[derive(Debug)]
pub struct AccountAuditRepo {
    rows: Vec<AccountAuditRow>,
}

impl AccountAuditRepo {
    /// The rows held, oldest first.
    pub closed spec fn rows(&self) -> Seq<AccountAuditRow> {
        self.rows@
    }

    /// An empty trail.
    pub fn new() -> (repo: Self)
        ensures
            repo.rows() == Seq::<AccountAuditRow>::empty(),
    {
        AccountAuditRepo { rows: Vec::new() }
    }

    /// Appends one row to the trail.
    pub fn append(&mut self, row: AccountAuditRow)
        ensures
            final(self).rows() == old(self).rows().push(row),
    {
        self.rows.push(row);
    }

    /// The rows whose slot lies in the closed range, oldest first.
    pub fn range(&self, from_slot: i64, to_slot: i64) -> (found: Vec<AccountAuditRow>)
        ensures
            found@ == self.rows().filter(audit_in_range(from_slot, to_slot)),
    {
        let ghost pred = audit_in_range(from_slot, to_slot);
        let mut found: Vec<AccountAuditRow> = Vec::new();
        let mut i: usize = 0;
        assert(self.rows@.take(0) =~= Seq::<AccountAuditRow>::empty());
        assert(Seq::<AccountAuditRow>::empty().filter(pred) =~= Seq::<AccountAuditRow>::empty())
            by {
            reveal(Seq::filter);
        }
        while i < self.rows.len()
            invariant
                i <= self.rows.len(),
                pred == audit_in_range(from_slot, to_slot),
                found@ == self.rows@.take(i as int).filter(pred),
            decreases self.rows.len() - i,
        {
            let ghost before = self.rows@.take(i as int);
            let row = self.rows[i];
            if from_slot <= row.slot && row.slot <= to_slot {
                found.push(row);
            }
            proof {
                assert(self.rows@.take(i + 1) =~= before.push(row));
                before.lemma_filter_push(row, pred);
            }
            i += 1;
        }
        assert(self.rows@.take(i as int) =~= self.rows@);
        found
    }
}

} // verus!
