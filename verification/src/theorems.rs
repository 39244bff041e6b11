//! What holds of the lane operations taken together.

use crate::bridge_tx_repo::{distinct_hashes, holds_hash, upsert_all, upsert_one};
use crate::error::ErrorKind;
use crate::execute_service::{
    advanced, cursor_position, furthest, monitor_advanced, opened, persisted, queried,
    range_fault, LaneView, StoreConfiguration, INITIAL_SLOT,
};
use crate::filter::{bridge_records, names_program, names_program_pred, record_of_fn};
use crate::model::{record_of, BridgeTxView, TransactionView};
use crate::transaction_repo::{ascending, tx_in_range};
use vstd::prelude::*;

verus! {

/// A cursor reads back the slot written last, whatever it held before, and
/// writing one lane's cursor leaves the other lane's where it stood.
pub proof fn theorem_cursor_reads_back(lane: LaneView, slot: i64)
    ensures
        cursor_position(advanced(lane, slot).cursor, advanced(lane, slot).initial_slot) == slot,
        advanced(lane, slot).monitor_cursor == lane.monitor_cursor,
        cursor_position(
            monitor_advanced(lane, slot).monitor_cursor,
            monitor_advanced(lane, slot).initial_slot,
        ) == slot,
        monitor_advanced(lane, slot).cursor == lane.cursor,
{
}

/// A lane built on cursors that were never written stands at the initial
/// slot, in both of its cursors.
pub proof fn theorem_fresh_cursor_at_initial_slot(
    config: StoreConfiguration,
    program_key: Seq<u8>,
    is_filter: bool,
)
    requires
        config.last_slot is None,
        config.monitor_last_slot is None,
    ensures
        ({
            let lane = opened(config, program_key, is_filter);
            &&& cursor_position(lane.cursor, lane.initial_slot) == INITIAL_SLOT
            &&& cursor_position(lane.monitor_cursor, lane.initial_slot) == INITIAL_SLOT
        }),
{
}

/// Neither asking the ledger nor persisting records moves a cursor: only a
/// write to the cursor does.
pub proof fn theorem_cursor_moves_only_when_written(
    lane: LaneView,
    from_slot: i64,
    to_slot: i64,
    records: Seq<BridgeTxView>,
)
    ensures
        queried(lane, from_slot, to_slot).cursor == lane.cursor,
        queried(lane, from_slot, to_slot).monitor_cursor == lane.monitor_cursor,
        persisted(lane, records).cursor == lane.cursor,
        persisted(lane, records).monitor_cursor == lane.monitor_cursor,
{
}

/// A cycle never moves the scan cursor back: where it leaves the cursor is
/// no lower than where the cursor stood, and no lower than the end of the
/// range; it is one of the two.
pub proof fn theorem_cycle_never_moves_back(lane: LaneView, end_slot: i64)
    requires
        lane.initial_slot <= i64::MAX,
    ensures
        ({
            let position = cursor_position(lane.cursor, lane.initial_slot);
            let after = advanced(lane, furthest(position, end_slot));
            &&& cursor_position(after.cursor, after.initial_slot) >= position
            &&& cursor_position(after.cursor, after.initial_slot) >= end_slot
            &&& (cursor_position(after.cursor, after.initial_slot) == position || cursor_position(
                after.cursor,
                after.initial_slot,
            ) == end_slot)
        }),
{
}

/// A range is refused exactly when it ends below its start or one of its
/// bounds lies below the initial slot, and the refusal is a range error.
pub proof fn theorem_range_refused(start_slot: i64, end_slot: i64, initial_slot: u64)
    ensures
        range_fault(start_slot, end_slot, initial_slot) is Some <==> (end_slot < start_slot
            || start_slot < initial_slot || end_slot < initial_slot),
        range_fault(start_slot, end_slot, initial_slot) matches Some(fault) ==> fault.spec_kind()
            == ErrorKind::Range,
{
}

/// Every transaction of a batch that names the program has its record in
/// the output, and every record of the output is that of a transaction of
/// the batch that names the program.
pub proof fn theorem_membership_exact(txs: Seq<TransactionView>, program_key: Seq<u8>)
    ensures
        forall|i: int|
            0 <= i < txs.len() && names_program(#[trigger] txs[i], program_key) ==> bridge_records(
                txs,
                program_key,
            ).contains(record_of(txs[i])),
        forall|j: int|
            0 <= j < bridge_records(txs, program_key).len() ==> exists|i: int|
                0 <= i < txs.len() && names_program(#[trigger] txs[i], program_key) && record_of(
                    txs[i],
                ) == (#[trigger] bridge_records(txs, program_key)[j]),
{
    let pred = names_program_pred(program_key);
    let kept = txs.filter(pred);
    let out = bridge_records(txs, program_key);
    assert forall|i: int|
        0 <= i < txs.len() && names_program(#[trigger] txs[i], program_key) implies out.contains(
        record_of(txs[i]),
    ) by {
        assert(pred(txs[i]));
        txs.lemma_filter_contains(pred, i);
        let w = choose|w: int| 0 <= w < kept.len() && kept[w] == txs[i];
        assert(out[w] == record_of(txs[i]));
    }
    assert forall|j: int| 0 <= j < out.len() implies exists|i: int|
        0 <= i < txs.len() && names_program(#[trigger] txs[i], program_key) && record_of(txs[i])
            == (#[trigger] out[j]) by {
        assert(out[j] == record_of(kept[j]));
        txs.lemma_filter_pred(pred, j);
        assert(kept.contains(kept[j]));
        txs.lemma_filter_contains_rev(pred, kept[j]);
        let i = choose|i: int| 0 <= i < txs.len() && txs[i] == kept[j];
        assert(names_program(txs[i], program_key));
    }
}

/// Whether a transaction names the program depends only on which keys it
/// lists, not on their order or number.
pub proof fn theorem_membership_order_independent(
    a: TransactionView,
    b: TransactionView,
    program_key: Seq<u8>,
)
    requires
        a.account_keys.to_set() == b.account_keys.to_set(),
    ensures
        names_program(a, program_key) == names_program(b, program_key),
{
    assert(a.account_keys.contains(program_key) == a.account_keys.to_set().contains(program_key));
    assert(b.account_keys.contains(program_key) == b.account_keys.to_set().contains(program_key));
}

/// The slots of the records never decrease along the sequence.
pub open spec fn ascending_records(records: Seq<BridgeTxView>) -> bool {
    forall|i: int, j: int| 0 <= i <= j < records.len() ==> records[i].slot <= records[j].slot
}

/// Filtering keeps the order: what is kept from an ascending sequence is
/// ascending, and no kept slot lies above a bound on all slots.
pub proof fn lemma_filter_keeps_order(
    txs: Seq<TransactionView>,
    pred: spec_fn(TransactionView) -> bool,
    bound: int,
)
    requires
        ascending(txs),
        forall|i: int| 0 <= i < txs.len() ==> txs[i].slot <= bound,
    ensures
        ascending(txs.filter(pred)),
        forall|i: int| 0 <= i < txs.filter(pred).len() ==> txs.filter(pred)[i].slot <= bound,
    decreases txs.len(),
{
    reveal(Seq::filter);
    if txs.len() > 0 {
        let front = txs.drop_last();
        let last = txs.last();
        assert forall|i: int, j: int| 0 <= i <= j < front.len() implies front[i].slot
            <= front[j].slot by {
            assert(front[i] == txs[i] && front[j] == txs[j]);
        }
        assert forall|i: int| 0 <= i < front.len() implies front[i].slot <= last.slot by {
            assert(front[i] == txs[i]);
        }
        lemma_filter_keeps_order(front, pred, last.slot as int);
    }
}

/// The output of the filter is in ascending slot order whenever the batch
/// is, and so is what a range query hands to the filter.
pub proof fn theorem_order_preserved(
    ledger: Seq<TransactionView>,
    from_slot: i64,
    to_slot: i64,
    program_key: Seq<u8>,
)
    requires
        ascending(ledger),
    ensures
        ascending(ledger.filter(tx_in_range(from_slot, to_slot))),
        ascending_records(
            bridge_records(ledger.filter(tx_in_range(from_slot, to_slot)), program_key),
        ),
        ascending_records(bridge_records(ledger, program_key)),
{
    let fetched = ledger.filter(tx_in_range(from_slot, to_slot));
    lemma_filter_keeps_order(ledger, tx_in_range(from_slot, to_slot), i64::MAX as int);
    lemma_filter_keeps_order(fetched, names_program_pred(program_key), i64::MAX as int);
    lemma_filter_keeps_order(ledger, names_program_pred(program_key), i64::MAX as int);
    let kept = fetched.filter(names_program_pred(program_key));
    let out = bridge_records(fetched, program_key);
    assert forall|i: int, j: int| 0 <= i <= j < out.len() implies out[i].slot <= out[j].slot by {
        assert(out[i] == record_of(kept[i]) && out[j] == record_of(kept[j]));
    }
    let kept_all = ledger.filter(names_program_pred(program_key));
    let out_all = bridge_records(ledger, program_key);
    assert forall|i: int, j: int| 0 <= i <= j < out_all.len() implies out_all[i].slot
        <= out_all[j].slot by {
        assert(out_all[i] == record_of(kept_all[i]) && out_all[j] == record_of(kept_all[j]));
    }
}

/// Offering a batch keeps every row that was stored, in its place.
pub proof fn lemma_upsert_all_keeps_rows(rows: Seq<BridgeTxView>, records: Seq<BridgeTxView>)
    ensures
        rows.len() <= upsert_all(rows, records).len(),
        forall|i: int| 0 <= i < rows.len() ==> upsert_all(rows, records)[i] == rows[i],
        forall|hash: Seq<char>|
            holds_hash(rows, hash) ==> holds_hash(upsert_all(rows, records), hash),
    decreases records.len(),
{
    if records.len() > 0 {
        lemma_upsert_all_keeps_rows(rows, records.drop_last());
    }
    let after = upsert_all(rows, records);
    assert forall|hash: Seq<char>| holds_hash(rows, hash) implies holds_hash(after, hash) by {
        let w = choose|w: int| 0 <= w < rows.len() && (#[trigger] rows[w]).tx_hash == hash;
        assert(after[w].tx_hash == hash);
    }
}

/// After a batch was offered, the store holds the hash of each of its
/// records.
pub proof fn lemma_upsert_all_holds_offered(rows: Seq<BridgeTxView>, records: Seq<BridgeTxView>)
    ensures
        forall|k: int|
            0 <= k < records.len() ==> holds_hash(
                upsert_all(rows, records),
                (#[trigger] records[k]).tx_hash,
            ),
    decreases records.len(),
{
    if records.len() > 0 {
        let front = records.drop_last();
        let last = records.last();
        let mid = upsert_all(rows, front);
        let after = upsert_all(rows, records);
        lemma_upsert_all_holds_offered(rows, front);
        assert(after == upsert_one(mid, last));
        assert forall|k: int| 0 <= k < records.len() implies holds_hash(
            after,
            (#[trigger] records[k]).tx_hash,
        ) by {
            if k < front.len() {
                assert(front[k] == records[k]);
                assert(holds_hash(mid, records[k].tx_hash));
                let w = choose|w: int|
                    0 <= w < mid.len() && (#[trigger] mid[w]).tx_hash == records[k].tx_hash;
                assert(after[w].tx_hash == records[k].tx_hash);
            } else {
                assert(records[k] == last);
                if !holds_hash(mid, last.tx_hash) {
                    assert(after[mid.len() as int].tx_hash == last.tx_hash);
                }
            }
        }
    }
}

/// A batch whose hashes are all stored already changes nothing.
pub proof fn lemma_upsert_all_of_stored(rows: Seq<BridgeTxView>, records: Seq<BridgeTxView>)
    requires
        forall|k: int| 0 <= k < records.len() ==> holds_hash(rows, (#[trigger] records[k]).tx_hash),
    ensures
        upsert_all(rows, records) == rows,
    decreases records.len(),
{
    if records.len() > 0 {
        let front = records.drop_last();
        assert forall|k: int| 0 <= k < front.len() implies holds_hash(
            rows,
            (#[trigger] front[k]).tx_hash,
        ) by {
            assert(front[k] == records[k]);
        }
        lemma_upsert_all_of_stored(rows, front);
        assert(holds_hash(rows, records[records.len() - 1].tx_hash));
    }
}

/// Persisting is idempotent by hash: offering the same records a second
/// time leaves the store as the first time left it, and writes no row.
pub proof fn theorem_persist_idempotent(lane: LaneView, records: Seq<BridgeTxView>)
    ensures
        persisted(persisted(lane, records), records) == persisted(lane, records),
        upsert_all(upsert_all(lane.bridge_txs, records), records).len() - upsert_all(
            lane.bridge_txs,
            records,
        ).len() == 0,
{
    let once = upsert_all(lane.bridge_txs, records);
    lemma_upsert_all_holds_offered(lane.bridge_txs, records);
    lemma_upsert_all_of_stored(once, records);
}

/// Processed implies persisted: once a batch was persisted and the cursor
/// advanced, the store holds the hash of every record of the batch, and the
/// rows stored before are still in their places.
pub proof fn theorem_processed_implies_persisted(
    lane: LaneView,
    records: Seq<BridgeTxView>,
    slot: i64,
)
    ensures
        forall|k: int|
            0 <= k < records.len() ==> holds_hash(
                advanced(persisted(lane, records), slot).bridge_txs,
                (#[trigger] records[k]).tx_hash,
            ),
        forall|i: int|
            0 <= i < lane.bridge_txs.len() ==> advanced(persisted(lane, records), slot).bridge_txs[i]
                == lane.bridge_txs[i],
{
    lemma_upsert_all_holds_offered(lane.bridge_txs, records);
    lemma_upsert_all_keeps_rows(lane.bridge_txs, records);
}

/// Persisting never stores a hash twice: a store with distinct hashes has
/// distinct hashes after any batch.
pub proof fn theorem_persist_keeps_hashes_distinct(
    rows: Seq<BridgeTxView>,
    records: Seq<BridgeTxView>,
)
    requires
        distinct_hashes(rows),
    ensures
        distinct_hashes(upsert_all(rows, records)),
    decreases records.len(),
{
    if records.len() > 0 {
        let mid = upsert_all(rows, records.drop_last());
        let last = records.last();
        theorem_persist_keeps_hashes_distinct(rows, records.drop_last());
        let after = upsert_all(rows, records);
        if !holds_hash(mid, last.tx_hash) {
            assert forall|i: int, j: int| 0 <= i < j < after.len() implies (#[trigger] after[i]).tx_hash
                != (#[trigger] after[j]).tx_hash by {
                if j < mid.len() {
                    assert(after[i] == mid[i] && after[j] == mid[j]);
                } else {
                    assert(after[i] == mid[i]);
                    assert(after[j] == last);
                }
            }
        }
    }
}

} // verus!
