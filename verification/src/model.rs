//! The records that move through a lane, each with its mathematical view.

use vstd::prelude::*;

verus! {

/// The views of the items of a sequence, in the same order.
pub open spec fn views<T: View>(items: Seq<T>) -> Seq<T::V> {
    Seq::new(items.len(), |i: int| items[i]@)
}

/// The byte strings of a list of account keys.
pub open spec fn key_views(keys: Seq<Vec<u8>>) -> Seq<Seq<u8>> {
    Seq::new(keys.len(), |i: int| keys[i]@)
}

/// A copy of a byte string.
pub fn copy_bytes(bytes: &Vec<u8>) -> (copy: Vec<u8>)
    ensures
        copy@ == bytes@,
{
    let mut copy: Vec<u8> = Vec::new();
    let mut i: usize = 0;
    while i < bytes.len()
        invariant
            i <= bytes.len(),
            copy@ == bytes@.take(i as int),
        decreases bytes.len() - i,
    {
        copy.push(bytes[i]);
        assert(copy@ =~= bytes@.take(i + 1));
        i += 1;
    }
    assert(bytes@.take(bytes.len() as int) =~= bytes@);
    copy
}

/// A copy of a list of account keys.
pub fn copy_keys(keys: &Vec<Vec<u8>>) -> (copy: Vec<Vec<u8>>)
    ensures
        key_views(copy@) == key_views(keys@),
{
    let mut copy: Vec<Vec<u8>> = Vec::new();
    let mut i: usize = 0;
    while i < keys.len()
        invariant
            i <= keys.len(),
            copy.len() == i,
            forall|j: int| 0 <= j < i ==> copy@[j]@ == keys@[j]@,
        decreases keys.len() - i,
    {
        let key = copy_bytes(&keys[i]);
        copy.push(key);
        i += 1;
    }
    assert(key_views(copy@) =~= key_views(keys@));
    copy
}

/// A decoded ledger transaction at a slot.
#[derive(Debug)]
pub struct TransactionRow {
    /// The ledger position of the transaction.
    pub slot: i64,
    /// The signature that identifies the transaction on the ledger.
    pub signature: String,
    /// The accounts the transaction names, in the order it names them.
    pub account_keys: Vec<Vec<u8>>,
    /// The instruction data the transaction carries.
    pub payload: Vec<u8>,
}

/// What a `TransactionRow` holds.
pub struct TransactionView {
    pub slot: i64,
    pub signature: Seq<char>,
    pub account_keys: Seq<Seq<u8>>,
    pub payload: Seq<u8>,
}

impl View for TransactionRow {
    type V = TransactionView;

    open spec fn view(&self) -> TransactionView {
        TransactionView {
            slot: self.slot,
            signature: self.signature@,
            account_keys: key_views(self.account_keys@),
            payload: self.payload@,
        }
    }
}

impl Clone for TransactionRow {
    fn clone(&self) -> (copy: Self)
        ensures
            copy@ == self@,
    {
        TransactionRow {
            slot: self.slot,
            signature: self.signature.clone(),
            account_keys: copy_keys(&self.account_keys),
            payload: copy_bytes(&self.payload),
        }
    }
}

/// How far a bridge transaction has come.
#[derive(Clone, Copy, Debug, PartialEq, Eq, Structural)]
pub enum BridgeTxStatus {
    /// Extracted from the ledger, not yet confirmed.
    Pending,
    /// Confirmed on the other chain.
    Confirmed,
}

/// What a bridge transaction record or stored row holds.
pub struct BridgeTxView {
    pub tx_hash: Seq<char>,
    pub slot: i64,
    pub status: BridgeTxStatus,
    pub payload: Seq<u8>,
}

/// A transaction that names the bridge program, as a lane hands it on.
#[derive(Debug)]
pub struct BridgeTxRecord {
    /// The stable identity of the record: the signature of its transaction.
    pub tx_hash: String,
    /// The ledger position of the transaction it was taken from.
    pub slot: i64,
    /// How far the bridge transaction has come.
    pub status: BridgeTxStatus,
    /// The instruction data of the transaction it was taken from.
    pub payload: Vec<u8>,
}

impl View for BridgeTxRecord {
    type V = BridgeTxView;

    open spec fn view(&self) -> BridgeTxView {
        BridgeTxView {
            tx_hash: self.tx_hash@,
            slot: self.slot,
            status: self.status,
            payload: self.payload@,
        }
    }
}

impl Clone for BridgeTxRecord {
    fn clone(&self) -> (copy: Self)
        ensures
            copy@ == self@,
    {
        BridgeTxRecord {
            tx_hash: self.tx_hash.clone(),
            slot: self.slot,
            status: self.status,
            payload: copy_bytes(&self.payload),
        }
    }
}

/// The record that a ledger transaction gives rise to: pending, identified by
/// the transaction's signature, at the transaction's slot.
pub open spec fn record_of(tx: TransactionView) -> BridgeTxView {
    BridgeTxView {
        tx_hash: tx.signature,
        slot: tx.slot,
        status: BridgeTxStatus::Pending,
        payload: tx.payload,
    }
}

impl BridgeTxRecord {
    /// The record that a ledger transaction gives rise to.
    pub fn from_transaction(tx: TransactionRow) -> (record: Self)
        ensures
            record@ == record_of(tx@),
    {
        BridgeTxRecord {
            tx_hash: tx.signature,
            slot: tx.slot,
            status: BridgeTxStatus::Pending,
            payload: tx.payload,
        }
    }

    /// The record that a stored row stands for.
    pub fn from_row(row: BridgeTxRow) -> (record: Self)
        ensures
            record@ == row@,
    {
        BridgeTxRecord {
            tx_hash: row.tx_hash,
            slot: row.slot,
            status: row.status,
            payload: row.payload,
        }
    }
}

/// A bridge transaction as the bridge store keeps it.
#[derive(Debug)]
pub struct BridgeTxRow {
    /// The stable identity of the row; no two stored rows share it.
    pub tx_hash: String,
    /// The ledger position of the transaction it was taken from.
    pub slot: i64,
    /// How far the bridge transaction has come.
    pub status: BridgeTxStatus,
    /// The instruction data of the transaction it was taken from.
    pub payload: Vec<u8>,
}

impl View for BridgeTxRow {
    type V = BridgeTxView;

    open spec fn view(&self) -> BridgeTxView {
        BridgeTxView {
            tx_hash: self.tx_hash@,
            slot: self.slot,
            status: self.status,
            payload: self.payload@,
        }
    }
}

impl Clone for BridgeTxRow {
    fn clone(&self) -> (copy: Self)
        ensures
            copy@ == self@,
    {
        BridgeTxRow {
            tx_hash: self.tx_hash.clone(),
            slot: self.slot,
            status: self.status,
            payload: copy_bytes(&self.payload),
        }
    }
}

impl BridgeTxRow {
    /// The row under which a record is stored.
    pub fn from_record(record: BridgeTxRecord) -> (row: Self)
        ensures
            row@ == record@,
    {
        BridgeTxRow {
            tx_hash: record.tx_hash,
            slot: record.slot,
            status: record.status,
            payload: record.payload,
        }
    }
}

/// A summary of a batch of transactions over a range of slots.
#[derive(Clone, Copy, Debug, PartialEq, Eq, Structural)]
pub struct ChainBrief {
    /// The first slot the batch covers.
    pub from_slot: i64,
    /// The last slot the batch covers.
    pub to_slot: i64,
    /// How many transactions the batch held.
    pub transaction_count: u64,
    /// How many of them named the bridge program.
    pub bridge_count: u64,
}

/// A chain brief as the brief store keeps it.
#[derive(Clone, Copy, Debug, PartialEq, Eq, Structural)]
pub struct BriefRecord {
    /// The first slot the batch covers.
    pub from_slot: i64,
    /// The last slot the batch covers.
    pub to_slot: i64,
    /// How many transactions the batch held.
    pub transaction_count: u64,
    /// How many of them named the bridge program.
    pub bridge_count: u64,
}

/// The stored form of a chain brief: the same four values.
pub open spec fn brief_record_of(brief: ChainBrief) -> BriefRecord {
    BriefRecord {
        from_slot: brief.from_slot,
        to_slot: brief.to_slot,
        transaction_count: brief.transaction_count,
        bridge_count: brief.bridge_count,
    }
}

/// The function "stored form of a brief", for use with `Seq::map_values`.
pub open spec fn brief_record_fn() -> spec_fn(ChainBrief) -> BriefRecord {
    |brief: ChainBrief| brief_record_of(brief)
}

/// Turns chain briefs into the records to store, one for one and in order.
pub fn convert_chain_briefs_to_brief_records(chain_briefs: Vec<ChainBrief>) -> (records: Vec<
    BriefRecord,
>)
    ensures
        records@ == chain_briefs@.map_values(brief_record_fn()),
{
    let mut records: Vec<BriefRecord> = Vec::new();
    let mut i: usize = 0;
    while i < chain_briefs.len()
        invariant
            i <= chain_briefs.len(),
            records@ == chain_briefs@.take(i as int).map_values(brief_record_fn()),
        decreases chain_briefs.len() - i,
    {
        let brief = chain_briefs[i];
        records.push(
            BriefRecord {
                from_slot: brief.from_slot,
                to_slot: brief.to_slot,
                transaction_count: brief.transaction_count,
                bridge_count: brief.bridge_count,
            },
        );
        assert(records@ =~= chain_briefs@.take(i + 1).map_values(brief_record_fn()));
        i += 1;
    }
    assert(chain_briefs@.take(chain_briefs.len() as int) =~= chain_briefs@);
    records
}

/// One entry of the audit trail: the state of an account at a slot.
#[derive(Clone, Copy, Debug, PartialEq, Eq, Structural)]
pub struct AccountAuditRow {
    /// The ledger position the entry speaks of.
    pub slot: i64,
    /// The number under which the audited account is registered.
    pub account: u64,
    /// The balance of the account after that slot.
    pub lamports: u64,
}

} // verus!
