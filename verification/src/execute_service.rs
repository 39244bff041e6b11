//! The orchestrator of one lane: fetch a range, filter it, persist the bridge
//! transactions, advance the cursor.
//!
//! The service owns the stores it was built with. Range checks come before
//! any query, so a refused range leaves every store, and the query log,
//! untouched.

use crate::account_audit_repo::{audit_in_range, AccountAuditRepo};
use crate::block_repo::{max_slot, BlockRepo};
use crate::bridge_tx_repo::{
    bridge_in_range, confirmed_in_range, distinct_hashes, hash_of_fn, holds_hash,
    lemma_upsert_all_len, position_of, upsert_all, with_status, BridgeTxRepo,
};
use crate::brief_repo::BriefRepo;
use crate::cursor::{CursorView, SlotCursor, StoreLocation};
use crate::error::NodeError;
use crate::filter::{extract_bridge_records, filter_outcome};
use crate::keys::{base58_pubkey, decode_base58_key, is_key, KEY_BYTES};
use crate::model::{
    brief_record_fn, convert_chain_briefs_to_brief_records, views, AccountAuditRow, BridgeTxRecord,
    BridgeTxRow, BridgeTxView, BriefRecord, ChainBrief, TransactionRow, TransactionView,
};
use crate::transaction_repo::{ascending, tx_in_range, SlotRange, TransactionRepo};
use vstd::prelude::*;

verus! {

/// The first slot a lane is permitted to process.
pub const INITIAL_SLOT: u64 = 2;

/// What is wrong with a range of slots, if anything: it ends below its
/// start, or one of its bounds lies below the initial slot.
pub open spec fn range_fault(start_slot: i64, end_slot: i64, initial_slot: u64) -> Option<
    NodeError,
> {
    if end_slot < start_slot {
        Some(NodeError::EndBeforeStart { start_slot, end_slot })
    } else if start_slot < initial_slot || end_slot < initial_slot {
        Some(NodeError::BelowInitialSlot { start_slot, end_slot, initial_slot })
    } else {
        None
    }
}

/// Checks a range of slots against the initial slot.
pub fn check_range(start_slot: i64, end_slot: i64, initial_slot: u64) -> (checked: Result<
    (),
    NodeError,
>)
    ensures
        checked == match range_fault(start_slot, end_slot, initial_slot) {
            Some(fault) => Err::<(), NodeError>(fault),
            None => Ok::<(), NodeError>(()),
        },
{
    if end_slot < start_slot {
        return Err(NodeError::EndBeforeStart { start_slot, end_slot });
    }
    let start_below = start_slot < 0 || (start_slot as u64) < initial_slot;
    let end_below = end_slot < 0 || (end_slot as u64) < initial_slot;
    if start_below || end_below {
        return Err(NodeError::BelowInitialSlot { start_slot, end_slot, initial_slot });
    }
    Ok(())
}

/// The contract settings of a node.
#[derive(Debug)]
pub struct ContractConfiguration {
    /// The bridge program's public key, in base58.
    pub l2_message_program_id: String,
}

/// The stores a lane is to work on, with what its two cursors held when
/// they were opened.
#[derive(Debug)]
pub struct StoreConfiguration {
    pub transactions: TransactionRepo,
    pub blocks: BlockRepo,
    pub bridge_txs: BridgeTxRepo,
    pub briefs: BriefRepo,
    pub account_audits: AccountAuditRepo,
    pub last_slot: Option<i64>,
    pub monitor_last_slot: Option<i64>,
}

impl StoreConfiguration {
    /// The ledger is in ascending order and no two bridge rows share a hash.
    pub open spec fn wf(&self) -> bool {
        self.transactions.wf() && self.bridge_txs.wf()
    }

    /// Empty stores and cursors that were never written.
    pub fn new() -> (config: Self)
        ensures
            config.wf(),
            config.transactions.rows() == Seq::<TransactionView>::empty(),
            config.transactions.requests() == Seq::<SlotRange>::empty(),
            config.blocks.slots() == Seq::<i64>::empty(),
            config.bridge_txs.rows() == Seq::<BridgeTxView>::empty(),
            config.briefs.records() == Seq::<BriefRecord>::empty(),
            config.account_audits.rows() == Seq::<AccountAuditRow>::empty(),
            config.last_slot is None,
            config.monitor_last_slot is None,
    {
        StoreConfiguration {
            transactions: TransactionRepo::new(),
            blocks: BlockRepo::new(),
            bridge_txs: BridgeTxRepo::new(),
            briefs: BriefRepo::new(),
            account_audits: AccountAuditRepo::new(),
            last_slot: None,
            monitor_last_slot: None,
        }
    }
}

/// Everything a lane's service holds.
pub struct LaneView {
    /// The bridge program's key.
    pub program_key: Seq<u8>,
    /// The first slot the lane may process.
    pub initial_slot: u64,
    /// The scan cursor.
    pub cursor: CursorView,
    /// The monitor cursor.
    pub monitor_cursor: CursorView,
    /// The ledger's transactions.
    pub ledger: Seq<TransactionView>,
    /// The ranges asked of the ledger so far.
    pub requests: Seq<SlotRange>,
    /// The slots of the known blocks.
    pub blocks: Seq<i64>,
    /// The stored bridge transactions.
    pub bridge_txs: Seq<BridgeTxView>,
    /// The stored briefs.
    pub briefs: Seq<BriefRecord>,
    /// The audit trail.
    pub account_audits: Seq<AccountAuditRow>,
}

/// What a service holds right after it was built on `config`.
pub open spec fn opened(config: StoreConfiguration, program_key: Seq<u8>, is_filter: bool)
    -> LaneView {
    LaneView {
        program_key,
        initial_slot: INITIAL_SLOT,
        cursor: CursorView {
            location: StoreLocation::spec_scan(is_filter),
            slot: config.last_slot,
        },
        monitor_cursor: CursorView {
            location: StoreLocation::spec_monitor(is_filter),
            slot: config.monitor_last_slot,
        },
        ledger: config.transactions.rows(),
        requests: config.transactions.requests(),
        blocks: config.blocks.slots(),
        bridge_txs: config.bridge_txs.rows(),
        briefs: config.briefs.records(),
        account_audits: config.account_audits.rows(),
    }
}

/// The slot a cursor stands at: the one written last, or the lane's initial
/// slot where none was written yet.
pub open spec fn cursor_position(cursor: CursorView, initial_slot: u64) -> int {
    match cursor.slot {
        Some(slot) => slot as int,
        None => initial_slot as int,
    }
}

/// The lane after its ledger was asked for a closed range: the query is in
/// the log, nothing else differs.
pub open spec fn queried(lane: LaneView, from_slot: i64, to_slot: i64) -> LaneView {
    LaneView { requests: lane.requests.push(SlotRange { from_slot, to_slot }), ..lane }
}

/// The lane after its scan cursor was written.
pub open spec fn advanced(lane: LaneView, slot: i64) -> LaneView {
    LaneView { cursor: CursorView { location: lane.cursor.location, slot: Some(slot) }, ..lane }
}

/// The lane after its monitor cursor was written.
pub open spec fn monitor_advanced(lane: LaneView, slot: i64) -> LaneView {
    LaneView {
        monitor_cursor: CursorView { location: lane.monitor_cursor.location, slot: Some(slot) },
        ..lane
    }
}

/// The lane after a batch of records was offered to its bridge store.
pub open spec fn persisted(lane: LaneView, records: Seq<BridgeTxView>) -> LaneView {
    LaneView { bridge_txs: upsert_all(lane.bridge_txs, records), ..lane }
}

/// Where a cycle over a range that ends at `end_slot` leaves a cursor that
/// stood at `position`: at the end of the range, unless it stood further on
/// already. A cycle never moves a cursor back.
pub open spec fn furthest(position: int, end_slot: i64) -> i64 {
    if end_slot >= position {
        end_slot
    } else {
        position as i64
    }
}

/// The orchestrator of one lane.
#[derive(Debug)]
pub struct ExecuteService {
    transactions: TransactionRepo,
    blocks: BlockRepo,
    bridge_txs: BridgeTxRepo,
    briefs: BriefRepo,
    account_audits: AccountAuditRepo,
    program_key: Vec<u8>,
    slot_cursor: SlotCursor,
    monitor_slot_cursor: SlotCursor,
    initial_slot: u64,
}

impl View for ExecuteService {
    type V = LaneView;

    closed spec fn view(&self) -> LaneView {
        LaneView {
            program_key: self.program_key@,
            initial_slot: self.initial_slot,
            cursor: self.slot_cursor@,
            monitor_cursor: self.monitor_slot_cursor@,
            ledger: self.transactions.rows(),
            requests: self.transactions.requests(),
            blocks: self.blocks.slots(),
            bridge_txs: self.bridge_txs.rows(),
            briefs: self.briefs.records(),
            account_audits: self.account_audits.rows(),
        }
    }
}

impl ExecuteService {
    /// The ledger is ascending, stored hashes are distinct, the program key
    /// is a public key, and the initial slot is a slot.
    pub open spec fn wf(&self) -> bool {
        &&& ascending(self@.ledger)
        &&& distinct_hashes(self@.bridge_txs)
        &&& is_key(self@.program_key)
        &&& self@.initial_slot <= i64::MAX
    }

    /// Builds the service of a lane on its stores. The bridge program id is
    /// decoded once, here; a lane with an id that is no public key is
    /// refused.
    pub fn new(
        config: StoreConfiguration,
        contract: &ContractConfiguration,
        is_filter: bool,
    ) -> (outcome: Result<Self, NodeError>)
        requires
            config.wf(),
        ensures
            match base58_pubkey(contract.l2_message_program_id@) {
                Some(key) => outcome matches Ok(service) && service.wf() && service@ == opened(
                    config,
                    key,
                    is_filter,
                ),
                None => outcome matches Err(e) && e == NodeError::InvalidProgramId,
            },
    {
        match decode_base58_key(contract.l2_message_program_id.as_str()) {
            Some(program_key) => Self::with_program_key(config, program_key, is_filter),
            None => Err(NodeError::InvalidProgramId),
        }
    }

    /// Builds the service of a lane on its stores, for a bridge program key
    /// given as raw bytes. A key that is not 32 bytes long is refused.
    pub fn with_program_key(
        config: StoreConfiguration,
        program_key: Vec<u8>,
        is_filter: bool,
    ) -> (outcome: Result<Self, NodeError>)
        requires
            config.wf(),
        ensures
            is_key(program_key@) ==> (outcome matches Ok(service) && service.wf() && service@
                == opened(config, program_key@, is_filter)),
            !is_key(program_key@) ==> (outcome matches Err(e) && e == NodeError::InvalidProgramId),
    {
        if program_key.len() != KEY_BYTES {
            return Err(NodeError::InvalidProgramId);
        }
        Ok(
            ExecuteService {
                transactions: config.transactions,
                blocks: config.blocks,
                bridge_txs: config.bridge_txs,
                briefs: config.briefs,
                account_audits: config.account_audits,
                program_key,
                slot_cursor: SlotCursor::open(StoreLocation::scan(is_filter), config.last_slot),
                monitor_slot_cursor: SlotCursor::open(
                    StoreLocation::monitor(is_filter),
                    config.monitor_last_slot,
                ),
                initial_slot: INITIAL_SLOT,
            },
        )
    }

    /// The audit rows whose slot lies in the closed range, oldest first.
    pub fn get_account_audits(&self, from_slot: i64, to_slot: i64) -> (outcome: Result<
        Vec<AccountAuditRow>,
        NodeError,
    >)
        ensures
            outcome matches Ok(rows) && rows@ == self@.account_audits.filter(
                audit_in_range(from_slot, to_slot),
            ),
    {
        Ok(self.account_audits.range(from_slot, to_slot))
    }

    /// The ledger's transactions whose slot lies in the closed range, in
    /// ledger order. A range that ends below its start, or has a bound
    /// below the initial slot, is refused before the ledger is asked.
    pub fn get_transactions(&mut self, from_slot: i64, to_slot: i64) -> (outcome: Result<
        Vec<TransactionRow>,
        NodeError,
    >)
        requires
            old(self).wf(),
        ensures
            final(self).wf(),
            match range_fault(from_slot, to_slot, old(self)@.initial_slot) {
                Some(fault) => {
                    &&& outcome matches Err(e)
                    &&& e == fault
                    &&& final(self)@ == old(self)@
                },
                None => {
                    &&& outcome matches Ok(rows)
                    &&& views(rows@) == old(self)@.ledger.filter(tx_in_range(from_slot, to_slot))
                    &&& final(self)@ == queried(old(self)@, from_slot, to_slot)
                },
            },
    {
        match check_range(from_slot, to_slot, self.initial_slot) {
            Err(e) => Err(e),
            Ok(()) => Ok(self.transactions.range(from_slot, to_slot)),
        }
    }

    /// How many range queries the ledger was asked so far.
    pub fn request_count(&self) -> (n: usize)
        ensures
            n == self@.requests.len(),
    {
        self.transactions.request_count()
    }

    /// The first slot the lane may process.
    pub fn get_initial_slot(&self) -> (outcome: Result<i64, NodeError>)
        requires
            self.wf(),
        ensures
            outcome == Ok::<i64, NodeError>(self@.initial_slot as i64),
            self@.initial_slot as i64 == self@.initial_slot,
    {
        Ok(self.initial_slot as i64)
    }

    /// The slot the scan cursor stands at: the one written last, or the
    /// initial slot where none was written yet.
    pub fn get_last_slot(&self) -> (outcome: Result<i64, NodeError>)
        requires
            self.wf(),
        ensures
            outcome matches Ok(slot) && slot == cursor_position(
                self@.cursor,
                self@.initial_slot,
            ),
    {
        match self.slot_cursor.show() {
            Some(slot) => Ok(slot),
            None => Ok(self.initial_slot as i64),
        }
    }

    /// The slot the monitor cursor stands at: the one written last, or the
    /// initial slot where none was written yet.
    pub fn get_last_slot_for_monitor(&self) -> (outcome: Result<i64, NodeError>)
        requires
            self.wf(),
        ensures
            outcome matches Ok(slot) && slot == cursor_position(
                self@.monitor_cursor,
                self@.initial_slot,
            ),
    {
        match self.monitor_slot_cursor.show() {
            Some(slot) => Ok(slot),
            None => Ok(self.initial_slot as i64),
        }
    }

    /// Overwrites the monitor cursor. Nothing else changes.
    pub fn update_last_slot_for_monitor(&mut self, slot: i64)
        ensures
            final(self)@ == monitor_advanced(old(self)@, slot),
    {
        self.monitor_slot_cursor.upsert(slot);
    }

    /// The highest slot among the known blocks; 0 where no block is known.
    pub fn get_max_slot(&mut self) -> (outcome: Result<i64, NodeError>)
        ensures
            final(self)@ == old(self)@,
            outcome == Ok::<i64, NodeError>(
                match max_slot(old(self)@.blocks) {
                    Some(slot) => slot,
                    None => 0,
                },
            ),
    {
        match self.blocks.show() {
            Some(slot) => Ok(slot),
            None => Ok(0),
        }
    }

    /// Overwrites the scan cursor. Nothing else changes.
    pub fn update_last_slot(&mut self, slot: i64)
        ensures
            final(self)@ == advanced(old(self)@, slot),
    {
        self.slot_cursor.upsert(slot);
    }

    /// Stores the briefs, one record each and in order, and returns how
    /// many rows were written.
    pub fn insert_briefs(&mut self, chain_briefs: Vec<ChainBrief>) -> (outcome: Result<
        u32,
        NodeError,
    >)
        requires
            chain_briefs.len() <= u32::MAX,
        ensures
            outcome == Ok::<u32, NodeError>(chain_briefs.len() as u32),
            final(self)@ == (LaneView {
                briefs: old(self)@.briefs + chain_briefs@.map_values(brief_record_fn()),
                ..old(self)@
            }),
    {
        let brief_records = convert_chain_briefs_to_brief_records(chain_briefs);
        let rows = self.briefs.insert(brief_records);
        Ok(rows.len() as u32)
    }

    /// Fetches the closed range from the ledger and keeps the transactions
    /// that name the bridge program, as records and in ledger order. The
    /// range is checked before the ledger is asked. A malformed account
    /// key in the range fails the whole batch.
    pub fn filter_bridge_tx(&mut self, start_slot: i64, end_slot: i64) -> (outcome: Result<
        Vec<BridgeTxRecord>,
        NodeError,
    >)
        requires
            old(self).wf(),
        ensures
            final(self).wf(),
            match range_fault(start_slot, end_slot, old(self)@.initial_slot) {
                Some(fault) => {
                    &&& outcome matches Err(e)
                    &&& e == fault
                    &&& final(self)@ == old(self)@
                },
                None => {
                    &&& final(self)@ == queried(old(self)@, start_slot, end_slot)
                    &&& match filter_outcome(
                        old(self)@.ledger.filter(tx_in_range(start_slot, end_slot)),
                        old(self)@.program_key,
                    ) {
                        Ok(expected) => outcome matches Ok(records) && views(records@) == expected,
                        Err(fault) => outcome matches Err(e) && e == fault,
                    }
                },
            },
    {
        match self.get_transactions(start_slot, end_slot) {
            Err(e) => Err(e),
            Ok(transactions) => extract_bridge_records(&transactions, &self.program_key),
        }
    }

    /// Offers the records to the bridge store. Each record whose hash is
    /// not yet stored is written; the others are left out. Returns how many
    /// rows were written.
    pub fn insert_bridge_txs(&mut self, bridge_txs: Vec<BridgeTxRecord>) -> (outcome: Result<
        u32,
        NodeError,
    >)
        requires
            old(self).wf(),
            bridge_txs.len() <= u32::MAX,
        ensures
            final(self).wf(),
            final(self)@ == persisted(old(self)@, views(bridge_txs@)),
            outcome matches Ok(count) && count == final(self)@.bridge_txs.len() - old(
                self,
            )@.bridge_txs.len(),
    {
        proof {
            lemma_upsert_all_len(self@.bridge_txs, views(bridge_txs@));
        }
        let rows = self.bridge_txs.insert(bridge_txs);
        assert(views(rows@).len() == rows@.len());
        Ok(rows.len() as u32)
    }

    /// One cycle of the lane over a closed range: fetch, filter, persist,
    /// and only then advance the scan cursor to the end of the range,
    /// unless it stands further on already. Returns how many rows were
    /// written. Where the range is refused or a transaction cannot be
    /// decoded, nothing is persisted and the cursor stays where it stood,
    /// so that the same range is processed again.
    pub fn process_range(&mut self, start_slot: i64, end_slot: i64) -> (outcome: Result<
        usize,
        NodeError,
    >)
        requires
            old(self).wf(),
        ensures
            final(self).wf(),
            match range_fault(start_slot, end_slot, old(self)@.initial_slot) {
                Some(fault) => {
                    &&& outcome matches Err(e)
                    &&& e == fault
                    &&& final(self)@ == old(self)@
                },
                None => match filter_outcome(
                    old(self)@.ledger.filter(tx_in_range(start_slot, end_slot)),
                    old(self)@.program_key,
                ) {
                    Err(fault) => {
                        &&& outcome matches Err(e)
                        &&& e == fault
                        &&& final(self)@ == queried(old(self)@, start_slot, end_slot)
                    },
                    Ok(records) => {
                        &&& outcome matches Ok(count)
                        &&& count == final(self)@.bridge_txs.len() - old(self)@.bridge_txs.len()
                        &&& final(self)@ == advanced(
                            persisted(queried(old(self)@, start_slot, end_slot), records),
                            furthest(
                                cursor_position(old(self)@.cursor, old(self)@.initial_slot),
                                end_slot,
                            ),
                        )
                    },
                },
            },
    {
        match self.filter_bridge_tx(start_slot, end_slot) {
            Err(e) => Err(e),
            Ok(records) => {
                let rows = self.bridge_txs.insert(records);
                assert(views(rows@).len() == rows@.len());
                let position = match self.slot_cursor.show() {
                    Some(slot) => slot,
                    None => self.initial_slot as i64,
                };
                if end_slot >= position {
                    self.slot_cursor.upsert(end_slot);
                } else {
                    self.slot_cursor.upsert(position);
                }
                Ok(rows.len())
            },
        }
    }

    /// The hashes of the confirmed bridge transactions whose slot lies in
    /// the closed range, in stored order.
    pub fn brige_txs_hashes(&self, from_slot: i64, to_slot: i64) -> (outcome: Result<
        Vec<String>,
        NodeError,
    >)
        ensures
            outcome matches Ok(hashes) && views(hashes@) == self@.bridge_txs.filter(
                confirmed_in_range(from_slot, to_slot),
            ).map_values(hash_of_fn()),
    {
        Ok(self.bridge_txs.bridge_tx_hashes(from_slot, to_slot))
    }

    /// The stored bridge transactions whose slot lies in the closed range,
    /// as records and in stored order.
    pub fn bridge_tx_range(&self, from_slot: i64, to_slot: i64) -> (outcome: Result<
        Vec<BridgeTxRecord>,
        NodeError,
    >)
        ensures
            outcome matches Ok(records) && views(records@) == self@.bridge_txs.filter(
                bridge_in_range(from_slot, to_slot),
            ),
    {
        let bridge_tx_rows = self.bridge_txs.range(from_slot, to_slot);
        let mut bridge_tx_records: Vec<BridgeTxRecord> = Vec::new();
        let mut i: usize = 0;
        while i < bridge_tx_rows.len()
            invariant
                i <= bridge_tx_rows.len(),
                bridge_tx_records.len() == i,
                forall|j: int| 0 <= j < i ==> bridge_tx_records@[j]@ == bridge_tx_rows@[j]@,
            decreases bridge_tx_rows.len() - i,
        {
            bridge_tx_records.push(BridgeTxRecord::from_row(bridge_tx_rows[i].clone()));
            i += 1;
        }
        assert(views(bridge_tx_records@) =~= views(bridge_tx_rows@));
        Ok(bridge_tx_records)
    }

    /// Replaces the status of the stored bridge transaction that carries the
    /// record's hash and returns the row as it then stands. Fails, and
    /// writes nothing, where no stored row carries that hash.
    pub fn bridge_tx_update(&mut self, brige_tx_record: BridgeTxRecord) -> (outcome: Result<
        BridgeTxRow,
        NodeError,
    >)
        requires
            old(self).wf(),
        ensures
            final(self).wf(),
            !holds_hash(old(self)@.bridge_txs, brige_tx_record@.tx_hash) ==> {
                &&& final(self)@ == old(self)@
                &&& outcome matches Err(e)
                &&& e == NodeError::UnknownBridgeTx { slot: brige_tx_record.slot }
            },
            holds_hash(old(self)@.bridge_txs, brige_tx_record@.tx_hash) ==> ({
                let at = position_of(old(self)@.bridge_txs, brige_tx_record@.tx_hash);
                let changed = with_status(old(self)@.bridge_txs[at], brige_tx_record.status);
                &&& final(self)@ == (LaneView {
                    bridge_txs: old(self)@.bridge_txs.update(at, changed),
                    ..old(self)@
                })
                &&& outcome matches Ok(row)
                &&& row@ == changed
            }),
    {
        self.bridge_txs.update(brige_tx_record)
    }
}

} // verus!
