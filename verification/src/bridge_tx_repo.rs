//! The store of bridge transactions, keyed by hash.
//!
//! Inserting is idempotent: a record whose hash is already stored is left
//! out, so replaying a range after a crash never stores a row twice.

use crate::error::NodeError;
use crate::model::{views, BridgeTxRecord, BridgeTxRow, BridgeTxStatus, BridgeTxView};
use vstd::prelude::*;

verus! {

/// Some row carries the hash.
pub open spec fn holds_hash(rows: Seq<BridgeTxView>, hash: Seq<char>) -> bool {
    exists|i: int| 0 <= i < rows.len() && (#[trigger] rows[i]).tx_hash == hash
}

/// The place of a row that carries the hash, where one does.
pub open spec fn position_of(rows: Seq<BridgeTxView>, hash: Seq<char>) -> int {
    choose|i: int| 0 <= i < rows.len() && (#[trigger] rows[i]).tx_hash == hash
}

/// No two rows carry the same hash.
pub open spec fn distinct_hashes(rows: Seq<BridgeTxView>) -> bool {
    forall|i: int, j: int|
        0 <= i < j < rows.len() ==> (#[trigger] rows[i]).tx_hash != (#[trigger] rows[j]).tx_hash
}

/// The store after one record is offered: appended if its hash is new.
pub open spec fn upsert_one(rows: Seq<BridgeTxView>, record: BridgeTxView) -> Seq<BridgeTxView> {
    if holds_hash(rows, record.tx_hash) {
        rows
    } else {
        rows.push(record)
    }
}

/// The store after a batch is offered, record by record and in order.
pub open spec fn upsert_all(rows: Seq<BridgeTxView>, records: Seq<BridgeTxView>) -> Seq<
    BridgeTxView,
>
    decreases records.len(),
{
    if records.len() == 0 {
        rows
    } else {
        upsert_one(upsert_all(rows, records.drop_last()), records.last())
    }
}

/// Offering a batch never removes a row, and adds at most one per record.
pub proof fn lemma_upsert_all_len(rows: Seq<BridgeTxView>, records: Seq<BridgeTxView>)
    ensures
        rows.len() <= upsert_all(rows, records).len() <= rows.len() + records.len(),
    decreases records.len(),
{
    if records.len() > 0 {
        lemma_upsert_all_len(rows, records.drop_last());
    }
}

/// The row with its status replaced.
pub open spec fn with_status(row: BridgeTxView, status: BridgeTxStatus) -> BridgeTxView {
    BridgeTxView { tx_hash: row.tx_hash, slot: row.slot, status, payload: row.payload }
}

/// The predicate "lies in the closed range", for use with `Seq::filter`.
pub open spec fn bridge_in_range(from_slot: i64, to_slot: i64) -> spec_fn(BridgeTxView) -> bool {
    |row: BridgeTxView| from_slot <= row.slot <= to_slot
}

/// The predicate "confirmed, and in the closed range".
pub open spec fn confirmed_in_range(from_slot: i64, to_slot: i64) -> spec_fn(
    BridgeTxView,
) -> bool {
    |row: BridgeTxView|
        from_slot <= row.slot <= to_slot && row.status == BridgeTxStatus::Confirmed
}

/// The function "hash of a row", for use with `Seq::map_values`.
pub open spec fn hash_of_fn() -> spec_fn(BridgeTxView) -> Seq<char> {
    |row: BridgeTxView| row.tx_hash
}

/// The stored bridge transactions, in the order they were written.
#[derive(Debug)]
pub struct BridgeTxRepo {
    rows: Vec<BridgeTxRow>,
}

impl BridgeTxRepo {
    /// The rows held, in the order they were written.
    pub closed spec fn rows(&self) -> Seq<BridgeTxView> {
        views(self.rows@)
    }

    /// No two stored rows share a hash.
    pub open spec fn wf(&self) -> bool {
        distinct_hashes(self.rows())
    }

    /// An empty store.
    pub fn new() -> (repo: Self)
        ensures
            repo.wf(),
            repo.rows() == Seq::<BridgeTxView>::empty(),
    {
        let repo = BridgeTxRepo { rows: Vec::new() };
        assert(repo.rows() =~= Seq::<BridgeTxView>::empty());
        repo
    }

    /// How many rows the store holds.
    pub fn len(&self) -> (n: usize)
        ensures
            n == self.rows().len(),
    {
        self.rows.len()
    }

    /// The place of the row that carries the hash, if one does.
    pub fn find(&self, hash: &String) -> (at: Option<usize>)
        ensures
            at is Some <==> holds_hash(self.rows(), hash@),
            at matches Some(i) ==> i < self.rows().len() && self.rows()[i as int].tx_hash
                == hash@,
    {
        let mut i: usize = 0;
        while i < self.rows.len()
            invariant
                i <= self.rows.len(),
                forall|j: int| 0 <= j < i ==> (#[trigger] self.rows()[j]).tx_hash != hash@,
            decreases self.rows.len() - i,
        {
            assert(self.rows()[i as int] == self.rows@[i as int]@);
            if self.rows[i].tx_hash == *hash {
                return Some(i);
            }
            i += 1;
        }
        None
    }

    /// Offers a batch to the store. Each record whose hash is not yet stored
    /// is written, in order; the others are left out. Returns the rows that
    /// were written.
    pub fn insert(&mut self, records: Vec<BridgeTxRecord>) -> (written: Vec<BridgeTxRow>)
        requires
            old(self).wf(),
        ensures
            final(self).wf(),
            final(self).rows() == upsert_all(old(self).rows(), views(records@)),
            old(self).rows().len() <= final(self).rows().len(),
            views(written@) == final(self).rows().skip(old(self).rows().len() as int),
    {
        let ghost start = self.rows();
        let ghost offered = views(records@);
        let mut written: Vec<BridgeTxRow> = Vec::new();
        let mut i: usize = 0;
        assert(offered.take(0) =~= Seq::<BridgeTxView>::empty());
        assert(views(written@) =~= self.rows().skip(start.len() as int));
        while i < records.len()
            invariant
                i <= records.len(),
                offered == views(records@),
                distinct_hashes(self.rows()),
                self.rows() == upsert_all(start, offered.take(i as int)),
                start.len() <= self.rows().len(),
                views(written@) == self.rows().skip(start.len() as int),
            decreases records.len() - i,
        {
            let ghost before = self.rows();
            let ghost before_written = views(written@);
            let ghost record = records@[i as int]@;
            assert(offered[i as int] == record);
            assert(offered.take(i + 1).drop_last() =~= offered.take(i as int));
            assert(offered.take(i + 1).last() == record);
            if self.find(&records[i].tx_hash).is_none() {
                let row = BridgeTxRow::from_record(records[i].clone());
                written.push(row.clone());
                self.rows.push(row);
                assert(self.rows() =~= before.push(record));
                assert(views(written@) =~= before_written.push(record));
                assert(views(written@) =~= self.rows().skip(start.len() as int));
            }
            i += 1;
        }
        assert(offered.take(i as int) =~= offered);
        written
    }

    /// Replaces the status of the stored row that carries the record's hash
    /// and returns the row as it then stands. Fails, and writes nothing,
    /// where no row carries that hash.
    pub fn update(&mut self, record: BridgeTxRecord) -> (outcome: Result<BridgeTxRow, NodeError>)
        requires
            old(self).wf(),
        ensures
            final(self).wf(),
            !holds_hash(old(self).rows(), record@.tx_hash) ==> final(self).rows() == old(
                self,
            ).rows() && (outcome matches Err(e) && e == NodeError::UnknownBridgeTx {
                slot: record.slot,
            }),
            holds_hash(old(self).rows(), record@.tx_hash) ==> ({
                let at = position_of(old(self).rows(), record@.tx_hash);
                let changed = with_status(old(self).rows()[at], record.status);
                &&& final(self).rows() == old(self).rows().update(at, changed)
                &&& outcome matches Ok(row)
                &&& row@ == changed
            }),
    {
        let ghost before = self.rows();
        match self.find(&record.tx_hash) {
            None => Err(NodeError::UnknownBridgeTx { slot: record.slot }),
            Some(i) => {
                proof {
                    let at = position_of(before, record@.tx_hash);
                    assert(before[i as int].tx_hash == record@.tx_hash);
                    if at < i {
                        assert(before[at].tx_hash != before[i as int].tx_hash);
                    } else if i < at {
                        assert(before[i as int].tx_hash != before[at].tx_hash);
                    }
                    assert(at == i);
                    assert(before[i as int] == self.rows@[i as int]@);
                }
                let mut row = self.rows[i].clone();
                row.status = record.status;
                let stored = row.clone();
                self.rows.set(i, stored);
                assert(self.rows() =~= before.update(i as int, with_status(before[i as int], record.status)));
                Ok(row)
            },
        }
    }

    /// The rows whose slot lies in the closed range, in stored order.
    pub fn range(&self, from_slot: i64, to_slot: i64) -> (found: Vec<BridgeTxRow>)
        ensures
            views(found@) == self.rows().filter(bridge_in_range(from_slot, to_slot)),
    {
        let ghost pred = bridge_in_range(from_slot, to_slot);
        let mut found: Vec<BridgeTxRow> = Vec::new();
        let mut i: usize = 0;
        assert(self.rows().take(0) =~= Seq::<BridgeTxView>::empty());
        assert(Seq::<BridgeTxView>::empty().filter(pred) =~= Seq::<BridgeTxView>::empty()) by {
            reveal(Seq::filter);
        }
        assert(views(found@) =~= self.rows().take(0).filter(pred));
        while i < self.rows.len()
            invariant
                i <= self.rows.len(),
                pred == bridge_in_range(from_slot, to_slot),
                views(found@) == self.rows().take(i as int).filter(pred),
            decreases self.rows.len() - i,
        {
            let ghost before = self.rows().take(i as int);
            let ghost row = self.rows@[i as int]@;
            let ghost old_found = views(found@);
            assert(self.rows()[i as int] == row);
            if from_slot <= self.rows[i].slot && self.rows[i].slot <= to_slot {
                found.push(self.rows[i].clone());
                assert(views(found@) =~= old_found.push(row));
            }
            proof {
                assert(self.rows().take(i + 1) =~= before.push(row));
                before.lemma_filter_push(row, pred);
            }
            i += 1;
        }
        assert(self.rows().take(i as int) =~= self.rows());
        found
    }

    /// The hashes of the confirmed rows whose slot lies in the closed range,
    /// in stored order.
    pub fn bridge_tx_hashes(&self, from_slot: i64, to_slot: i64) -> (hashes: Vec<String>)
        ensures
            views(hashes@) == self.rows().filter(confirmed_in_range(from_slot, to_slot)).map_values(
                hash_of_fn(),
            ),
    {
        let ghost pred = confirmed_in_range(from_slot, to_slot);
        let mut hashes: Vec<String> = Vec::new();
        let mut i: usize = 0;
        assert(self.rows().take(0) =~= Seq::<BridgeTxView>::empty());
        assert(Seq::<BridgeTxView>::empty().filter(pred) =~= Seq::<BridgeTxView>::empty()) by {
            reveal(Seq::filter);
        }
        assert(views(hashes@) =~= self.rows().take(0).filter(pred).map_values(hash_of_fn()));
        while i < self.rows.len()
            invariant
                i <= self.rows.len(),
                pred == confirmed_in_range(from_slot, to_slot),
                views(hashes@) == self.rows().take(i as int).filter(pred).map_values(hash_of_fn()),
            decreases self.rows.len() - i,
        {
            let ghost before = self.rows().take(i as int);
            let ghost row = self.rows@[i as int]@;
            let ghost old_hashes = views(hashes@);
            assert(self.rows()[i as int] == row);
            let confirmed = match self.rows[i].status {
                BridgeTxStatus::Confirmed => true,
                BridgeTxStatus::Pending => false,
            };
            if from_slot <= self.rows[i].slot && self.rows[i].slot <= to_slot && confirmed {
                hashes.push(self.rows[i].tx_hash.clone());
                assert(views(hashes@) =~= old_hashes.push(row.tx_hash));
            }
            proof {
                assert(self.rows().take(i + 1) =~= before.push(row));
                before.lemma_filter_push(row, pred);
                before.filter(pred).lemma_push_map_commute(hash_of_fn(), row);
            }
            i += 1;
        }
        assert(self.rows().take(i as int) =~= self.rows());
        hashes
    }
}

} // verus!
