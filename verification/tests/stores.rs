use relayer::account_audit_repo::AccountAuditRepo;
use relayer::block_repo::BlockRepo;
use relayer::bridge_tx_repo::BridgeTxRepo;
use relayer::brief_repo::BriefRepo;
use relayer::cursor::{SlotCursor, StoreLocation};
use relayer::error::{ErrorKind, NodeError};
use relayer::execute_service::{check_range, ExecuteService, StoreConfiguration};
use relayer::filter::{bridge_filter, extract_bridge_records, names_bridge_program};
use relayer::keys::same_bytes;
use relayer::model::{
    convert_chain_briefs_to_brief_records, copy_bytes, copy_keys, AccountAuditRow, BridgeTxRecord,
    BridgeTxRow, BridgeTxStatus, BriefRecord, ChainBrief, TransactionRow,
};
use relayer::transaction_repo::TransactionRepo;

fn key(tag: u8) -> Vec<u8> {
    vec![tag; 32]
}

fn row(slot: i64, signature: &str, account_keys: Vec<Vec<u8>>) -> TransactionRow {
    TransactionRow { slot, signature: signature.to_string(), account_keys, payload: vec![5, 6] }
}

#[test]
fn absent_cursor_reads_zero_from_the_store() {
    let mut cursor = SlotCursor::open(StoreLocation::Slot, None);
    assert_eq!(cursor.show(), None);
    assert_eq!(cursor.read(), 0);
    cursor.upsert(12);
    assert_eq!(cursor.show(), Some(12));
    assert_eq!(cursor.read(), 12);
    cursor.upsert(-3);
    assert_eq!(cursor.read(), -3);
    assert_eq!(cursor.location(), StoreLocation::Slot);
}

#[test]
fn cursor_locations_are_four_distinct_directories() {
    assert_eq!(StoreLocation::scan(true), StoreLocation::Slot);
    assert_eq!(StoreLocation::scan(false), StoreLocation::SlotTmp);
    assert_eq!(StoreLocation::monitor(true), StoreLocation::MonitorSlotTmp);
    assert_eq!(StoreLocation::monitor(false), StoreLocation::MonitorSlot);
    assert_eq!(StoreLocation::Slot.path(), "./relayer/slot");
    assert_eq!(StoreLocation::SlotTmp.path(), "./relayer/slot-tmp");
    assert_eq!(StoreLocation::MonitorSlot.path(), "./relayer/monitor-slot");
    assert_eq!(StoreLocation::MonitorSlotTmp.path(), "./relayer/monitor-slot-tmp");
}

#[test]
fn error_kinds_and_retry_policy() {
    assert_eq!(NodeError::EndBeforeStart { start_slot: 3, end_slot: 1 }.kind(), ErrorKind::Range);
    assert_eq!(
        NodeError::BelowInitialSlot { start_slot: 0, end_slot: 1, initial_slot: 2 }.kind(),
        ErrorKind::Range
    );
    assert_eq!(NodeError::Query.kind(), ErrorKind::Query);
    assert_eq!(NodeError::MalformedAccountKey { slot: 1, index: 0 }.kind(), ErrorKind::Decode);
    assert_eq!(NodeError::UnknownBridgeTx { slot: 1 }.kind(), ErrorKind::NotFound);
    assert_eq!(NodeError::InvalidProgramId.kind(), ErrorKind::Configuration);
    assert!(NodeError::Query.is_transient());
    assert!(!NodeError::InvalidProgramId.is_transient());
    assert!(!NodeError::EndBeforeStart { start_slot: 3, end_slot: 1 }.is_transient());
}

#[test]
fn check_range_edges() {
    assert_eq!(check_range(2, 2, 2), Ok(()));
    assert_eq!(check_range(2, i64::MAX, 2), Ok(()));
    assert_eq!(
        check_range(1, 2, 2),
        Err(NodeError::BelowInitialSlot { start_slot: 1, end_slot: 2, initial_slot: 2 })
    );
    assert_eq!(check_range(3, 2, 2), Err(NodeError::EndBeforeStart { start_slot: 3, end_slot: 2 }));
    assert_eq!(check_range(1, 0, 2), Err(NodeError::EndBeforeStart { start_slot: 1, end_slot: 0 }));
    assert_eq!(check_range(0, 0, 0), Ok(()));
    assert_eq!(
        check_range(-1, 0, 0),
        Err(NodeError::BelowInitialSlot { start_slot: -1, end_slot: 0, initial_slot: 0 })
    );
    assert_eq!(
        check_range(5, i64::MAX, u64::MAX),
        Err(NodeError::BelowInitialSlot { start_slot: 5, end_slot: i64::MAX, initial_slot: u64::MAX })
    );
}

#[test]
fn ledger_only_grows_forward() {
    let mut repo = TransactionRepo::new();
    assert!(repo.append(row(5, "a", vec![])));
    assert!(repo.append(row(5, "b", vec![])));
    assert!(!repo.append(row(4, "c", vec![])));
    assert!(repo.append(row(8, "d", vec![])));
    assert_eq!(repo.len(), 3);
    let found = repo.range(5, 5);
    assert_eq!(found.len(), 2);
    assert_eq!(found[0].signature, "a");
    assert_eq!(found[1].signature, "b");
    assert_eq!(repo.range(9, 1).len(), 0);
    assert_eq!(repo.request_count(), 2);
}

#[test]
fn filter_on_single_transactions() {
    let program = key(9);
    let hit = row(3, "hit", vec![key(1), key(9)]);
    let miss = row(3, "miss", vec![key(1), key(2)]);
    let broken = row(4, "broken", vec![vec![9u8; 16], key(9)]);
    assert_eq!(names_bridge_program(&hit, &program), Ok(true));
    assert_eq!(names_bridge_program(&miss, &program), Ok(false));
    assert_eq!(
        names_bridge_program(&broken, &program),
        Err(NodeError::MalformedAccountKey { slot: 4, index: 0 })
    );
    let record = bridge_filter(&hit, &program).unwrap().unwrap();
    assert_eq!(record.tx_hash, "hit");
    assert_eq!(record.slot, 3);
    assert_eq!(record.status, BridgeTxStatus::Pending);
    assert_eq!(record.payload, vec![5, 6]);
    assert!(bridge_filter(&miss, &program).unwrap().is_none());
    assert_eq!(
        bridge_filter(&broken, &program).unwrap_err(),
        NodeError::MalformedAccountKey { slot: 4, index: 0 }
    );
}

#[test]
fn filter_on_batches() {
    let program = key(9);
    let batch = vec![
        row(2, "a", vec![key(9)]),
        row(3, "b", vec![key(8)]),
        row(4, "c", vec![key(7), key(9)]),
    ];
    let records = extract_bridge_records(&batch, &program).unwrap();
    assert_eq!(records.len(), 2);
    assert_eq!(records[0].tx_hash, "a");
    assert_eq!(records[1].tx_hash, "c");
    assert!(extract_bridge_records(&Vec::new(), &program).unwrap().is_empty());
}

#[test]
fn byte_helpers() {
    assert!(same_bytes(&vec![1, 2, 3], &vec![1, 2, 3]));
    assert!(!same_bytes(&vec![1, 2, 3], &vec![1, 2, 4]));
    assert!(!same_bytes(&vec![1, 2, 3], &vec![1, 2]));
    assert!(same_bytes(&Vec::new(), &Vec::new()));
    assert_eq!(copy_bytes(&vec![4, 5, 6]), vec![4, 5, 6]);
    assert_eq!(copy_keys(&vec![vec![1], vec![], vec![2, 3]]), vec![vec![1], vec![], vec![2, 3]]);
}

#[test]
fn record_and_row_conversions_keep_every_field() {
    let tx = row(6, "sig", vec![key(1)]);
    let copy = tx.clone();
    assert_eq!(copy.slot, 6);
    assert_eq!(copy.signature, "sig");
    assert_eq!(copy.account_keys, vec![key(1)]);
    assert_eq!(copy.payload, vec![5, 6]);
    let record = BridgeTxRecord::from_transaction(tx);
    let stored = BridgeTxRow::from_record(record.clone());
    assert_eq!(stored.tx_hash, "sig");
    assert_eq!(stored.slot, 6);
    assert_eq!(stored.status, BridgeTxStatus::Pending);
    assert_eq!(stored.payload, vec![5, 6]);
    let back = BridgeTxRecord::from_row(stored.clone());
    assert_eq!(back.tx_hash, record.tx_hash);
    assert_eq!(back.slot, record.slot);
    assert_eq!(back.status, record.status);
    assert_eq!(back.payload, record.payload);
}

#[test]
fn bridge_store_find_insert_update() {
    let mut repo = BridgeTxRepo::new();
    let rec = |hash: &str, slot: i64| BridgeTxRecord {
        tx_hash: hash.to_string(),
        slot,
        status: BridgeTxStatus::Pending,
        payload: vec![],
    };
    let written = repo.insert(vec![rec("x", 2), rec("y", 3), rec("x", 4)]);
    assert_eq!(written.len(), 2);
    assert_eq!(written[0].tx_hash, "x");
    assert_eq!(written[1].tx_hash, "y");
    assert_eq!(repo.len(), 2);
    assert_eq!(repo.find(&"y".to_string()), Some(1));
    assert_eq!(repo.find(&"z".to_string()), None);
    let written = repo.insert(vec![rec("y", 3), rec("z", 5)]);
    assert_eq!(written.len(), 1);
    assert_eq!(written[0].tx_hash, "z");
    assert_eq!(repo.len(), 3);
    assert!(repo.bridge_tx_hashes(0, 10).is_empty());
    let mut confirm = rec("z", 5);
    confirm.status = BridgeTxStatus::Confirmed;
    assert_eq!(repo.update(confirm).unwrap().status, BridgeTxStatus::Confirmed);
    assert_eq!(repo.bridge_tx_hashes(0, 10), vec!["z".to_string()]);
    assert_eq!(repo.range(3, 5).len(), 2);
}

#[test]
fn max_slot_is_zero_without_blocks() {
    let mut service =
        ExecuteService::with_program_key(StoreConfiguration::new(), key(1), true).unwrap();
    assert_eq!(service.get_max_slot(), Ok(0));

    let mut blocks = BlockRepo::new();
    assert_eq!(blocks.show(), None);
    blocks.record(4);
    blocks.record(11);
    blocks.record(7);
    assert_eq!(blocks.show(), Some(11));
    blocks.record(-2);
    assert_eq!(blocks.show(), Some(11));
    let mut config = StoreConfiguration::new();
    config.blocks = blocks;
    let mut service = ExecuteService::with_program_key(config, key(1), false).unwrap();
    assert_eq!(service.get_max_slot(), Ok(11));

    let mut negative = BlockRepo::new();
    negative.record(-9);
    negative.record(-4);
    assert_eq!(negative.show(), Some(-4));
}

#[test]
fn briefs_are_stored_one_for_one() {
    let briefs = vec![
        ChainBrief { from_slot: 2, to_slot: 4, transaction_count: 3, bridge_count: 2 },
        ChainBrief { from_slot: 5, to_slot: 9, transaction_count: 0, bridge_count: 0 },
    ];
    let records = convert_chain_briefs_to_brief_records(briefs.clone());
    assert_eq!(
        records,
        vec![
            BriefRecord { from_slot: 2, to_slot: 4, transaction_count: 3, bridge_count: 2 },
            BriefRecord { from_slot: 5, to_slot: 9, transaction_count: 0, bridge_count: 0 },
        ]
    );
    let mut repo = BriefRepo::new();
    assert_eq!(repo.insert(records.clone()), records);
    assert_eq!(repo.len(), 2);

    let mut service =
        ExecuteService::with_program_key(StoreConfiguration::new(), key(1), true).unwrap();
    assert_eq!(service.insert_briefs(briefs), Ok(2));
    assert_eq!(service.insert_briefs(Vec::new()), Ok(0));
}

#[test]
fn account_audits_by_range() {
    let mut audits = AccountAuditRepo::new();
    audits.append(AccountAuditRow { slot: 2, account: 1, lamports: 10 });
    audits.append(AccountAuditRow { slot: 3, account: 1, lamports: 12 });
    audits.append(AccountAuditRow { slot: 3, account: 2, lamports: 0 });
    audits.append(AccountAuditRow { slot: 6, account: 1, lamports: 5 });
    let mut config = StoreConfiguration::new();
    config.account_audits = audits;
    let service = ExecuteService::with_program_key(config, key(1), true).unwrap();
    assert_eq!(
        service.get_account_audits(3, 5),
        Ok(vec![
            AccountAuditRow { slot: 3, account: 1, lamports: 12 },
            AccountAuditRow { slot: 3, account: 2, lamports: 0 },
        ])
    );
    assert_eq!(service.get_account_audits(7, 9), Ok(Vec::new()));
    assert_eq!(service.get_account_audits(6, 2), Ok(Vec::new()));
}
