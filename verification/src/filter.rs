//! The bridge filter: which transactions name the bridge program.
//!
//! A transaction is a bridge transaction exactly when the bridge program's
//! key occurs among its account keys. Every account key is decoded first, so
//! a transaction with a malformed key is reported, never silently skipped.

use crate::error::NodeError;
use crate::keys::{decode_raw_key, is_key, same_bytes};
use crate::model::{record_of, views, BridgeTxRecord, BridgeTxView, TransactionRow, TransactionView};
use vstd::prelude::*;

verus! {

/// Every account key of the transaction has the shape of a public key.
pub open spec fn keys_well_formed(tx: TransactionView) -> bool {
    forall|k: int| 0 <= k < tx.account_keys.len() ==> is_key(#[trigger] tx.account_keys[k])
}

/// `index` is the place of the first account key that is no public key.
pub open spec fn is_first_malformed_key(tx: TransactionView, index: int) -> bool {
    &&& 0 <= index < tx.account_keys.len()
    &&& !is_key(tx.account_keys[index])
    &&& forall|k: int| 0 <= k < index ==> is_key(#[trigger] tx.account_keys[k])
}

/// The place of the first malformed account key of a transaction that has one.
pub open spec fn first_malformed_key(tx: TransactionView) -> int {
    choose|index: int| is_first_malformed_key(tx, index)
}

/// The failure that a transaction with a malformed account key gives rise to.
pub open spec fn key_fault(tx: TransactionView) -> NodeError {
    NodeError::MalformedAccountKey { slot: tx.slot, index: first_malformed_key(tx) as usize }
}

/// Only one place is that of the first malformed account key.
pub proof fn lemma_first_malformed_key_unique(tx: TransactionView, index: int)
    requires
        is_first_malformed_key(tx, index),
    ensures
        first_malformed_key(tx) == index,
        !keys_well_formed(tx),
{
    let other = first_malformed_key(tx);
    assert(is_first_malformed_key(tx, other));
    if other < index {
        assert(is_key(tx.account_keys[other]));
    } else if index < other {
        assert(is_key(tx.account_keys[index]));
    }
}

/// The transaction names the program: the key occurs among its account keys.
pub open spec fn names_program(tx: TransactionView, program_key: Seq<u8>) -> bool {
    tx.account_keys.contains(program_key)
}

/// The predicate "names the program", for use with `Seq::filter`.
pub open spec fn names_program_pred(program_key: Seq<u8>) -> spec_fn(TransactionView) -> bool {
    |tx: TransactionView| names_program(tx, program_key)
}

/// The function "record of a transaction", for use with `Seq::map_values`.
pub open spec fn record_of_fn() -> spec_fn(TransactionView) -> BridgeTxView {
    |tx: TransactionView| record_of(tx)
}

/// The bridge records of a batch: one for each transaction that names the
/// program, in the order of the batch.
pub open spec fn bridge_records(txs: Seq<TransactionView>, program_key: Seq<u8>) -> Seq<
    BridgeTxView,
> {
    txs.filter(names_program_pred(program_key)).map_values(record_of_fn())
}

/// Every transaction of the batch has well-formed account keys.
pub open spec fn batch_well_formed(txs: Seq<TransactionView>) -> bool {
    forall|i: int| 0 <= i < txs.len() ==> keys_well_formed(#[trigger] txs[i])
}

/// `at` is the place of the first transaction with a malformed account key.
pub open spec fn is_first_malformed_tx(txs: Seq<TransactionView>, at: int) -> bool {
    &&& 0 <= at < txs.len()
    &&& !keys_well_formed(txs[at])
    &&& forall|i: int| 0 <= i < at ==> keys_well_formed(#[trigger] txs[i])
}

/// The place of the first transaction with a malformed key in a batch that
/// has one.
pub open spec fn first_malformed_tx(txs: Seq<TransactionView>) -> int {
    choose|at: int| is_first_malformed_tx(txs, at)
}

/// Only one place is that of the first transaction with a malformed key.
pub proof fn lemma_first_malformed_tx_unique(txs: Seq<TransactionView>, at: int)
    requires
        is_first_malformed_tx(txs, at),
    ensures
        first_malformed_tx(txs) == at,
        !batch_well_formed(txs),
{
    let other = first_malformed_tx(txs);
    assert(is_first_malformed_tx(txs, other));
    if other < at {
        assert(keys_well_formed(txs[other]));
    } else if at < other {
        assert(keys_well_formed(txs[at]));
    }
}

/// What filtering a batch yields: the bridge records of the batch, or the
/// failure of its first transaction with a malformed account key.
pub open spec fn filter_outcome(txs: Seq<TransactionView>, program_key: Seq<u8>) -> Result<
    Seq<BridgeTxView>,
    NodeError,
> {
    if batch_well_formed(txs) {
        Ok(bridge_records(txs, program_key))
    } else {
        Err(key_fault(txs[first_malformed_tx(txs)]))
    }
}

/// Decodes every account key of a transaction and tells whether the program
/// key is among them. Fails at the first key that is no public key.
pub fn names_bridge_program(tx: &TransactionRow, program_key: &Vec<u8>) -> (found: Result<
    bool,
    NodeError,
>)
    ensures
        keys_well_formed(tx@) ==> found == Ok::<bool, NodeError>(
            names_program(tx@, program_key@),
        ),
        !keys_well_formed(tx@) ==> found == Err::<bool, NodeError>(key_fault(tx@)),
{
    let mut found = false;
    let mut i: usize = 0;
    while i < tx.account_keys.len()
        invariant
            i <= tx.account_keys.len(),
            forall|k: int| 0 <= k < i ==> is_key(#[trigger] tx@.account_keys[k]),
            found == tx@.account_keys.take(i as int).contains(program_key@),
        decreases tx.account_keys.len() - i,
    {
        let decoded = decode_raw_key(tx.account_keys[i].as_slice());
        assert(tx@.account_keys[i as int] == tx.account_keys@[i as int]@);
        match decoded {
            None => {
                proof {
                    lemma_first_malformed_key_unique(tx@, i as int);
                }
                return Err(NodeError::MalformedAccountKey { slot: tx.slot, index: i });
            },
            Some(key) => {
                let hit = same_bytes(&key, program_key);
                proof {
                    let before = tx@.account_keys.take(i as int);
                    let after = tx@.account_keys.take(i + 1);
                    assert(after =~= before.push(tx@.account_keys[i as int]));
                    if hit {
                        assert(after[i as int] == program_key@);
                    } else if after.contains(program_key@) {
                        let w = choose|w: int| 0 <= w < after.len() && after[w] == program_key@;
                        assert(before[w] == program_key@);
                    } else if before.contains(program_key@) {
                        let w = choose|w: int| 0 <= w < before.len() && before[w] == program_key@;
                        assert(after[w] == program_key@);
                    }
                }
                if hit {
                    found = true;
                }
            },
        }
        i += 1;
    }
    assert(tx@.account_keys.take(i as int) =~= tx@.account_keys);
    Ok(found)
}

/// Applies the filter to one transaction: its bridge record if it names the
/// program, nothing if it does not, a decode failure if a key is malformed.
pub fn bridge_filter(tx: &TransactionRow, program_key: &Vec<u8>) -> (outcome: Result<
    Option<BridgeTxRecord>,
    NodeError,
>)
    ensures
        keys_well_formed(tx@) && names_program(tx@, program_key@) ==> (outcome matches Ok(
            Some(record),
        ) && record@ == record_of(tx@)),
        keys_well_formed(tx@) && !names_program(tx@, program_key@) ==> outcome matches Ok(None),
        !keys_well_formed(tx@) ==> (outcome matches Err(e) && e == key_fault(tx@)),
{
    match names_bridge_program(tx, program_key) {
        Err(e) => Err(e),
        Ok(false) => Ok(None),
        Ok(true) => Ok(Some(BridgeTxRecord::from_transaction(tx.clone()))),
    }
}

/// Applies the filter to a batch, in order. The whole batch fails at the
/// first transaction with a malformed account key.
pub fn extract_bridge_records(txs: &Vec<TransactionRow>, program_key: &Vec<u8>) -> (outcome:
    Result<Vec<BridgeTxRecord>, NodeError>)
    ensures
        match filter_outcome(views(txs@), program_key@) {
            Ok(expected) => outcome matches Ok(records) && views(records@) == expected,
            Err(fault) => outcome matches Err(e) && e == fault,
        },
{
    let mut records: Vec<BridgeTxRecord> = Vec::new();
    let mut i: usize = 0;
    assert(views(txs@).take(0) =~= Seq::<TransactionView>::empty());
    assert(Seq::<TransactionView>::empty().filter(names_program_pred(program_key@))
        =~= Seq::<TransactionView>::empty()) by {
        reveal(Seq::filter);
    }
    assert(views(records@) =~= bridge_records(views(txs@).take(0), program_key@));
    while i < txs.len()
        invariant
            i <= txs.len(),
            forall|j: int| 0 <= j < i ==> keys_well_formed(#[trigger] views(txs@)[j]),
            views(records@) == bridge_records(views(txs@).take(i as int), program_key@),
        decreases txs.len() - i,
    {
        let ghost before = views(txs@).take(i as int);
        let ghost old_records = views(records@);
        assert(views(txs@)[i as int] == txs@[i as int]@);
        match bridge_filter(&txs[i], program_key) {
            Err(e) => {
                proof {
                    lemma_first_malformed_tx_unique(views(txs@), i as int);
                }
                return Err(e);
            },
            Ok(None) => {},
            Ok(Some(record)) => {
                records.push(record);
                assert(views(records@) =~= old_records.push(record_of(txs@[i as int]@)));
            },
        }
        proof {
            let tx = txs@[i as int]@;
            assert(views(txs@).take(i + 1) =~= before.push(tx));
            before.lemma_filter_push(tx, names_program_pred(program_key@));
            before.filter(names_program_pred(program_key@)).lemma_push_map_commute(
                record_of_fn(),
                tx,
            );
        }
        i += 1;
    }
    assert(views(txs@).take(i as int) =~= views(txs@));
    Ok(records)
}

} // verus!
