use relayer::error::{ErrorKind, NodeError};
use relayer::execute_service::{ContractConfiguration, ExecuteService, StoreConfiguration};
use relayer::model::{BridgeTxRecord, BridgeTxStatus, TransactionRow};

const BRIDGE_ID: &str = "11111111111111111111111111111112";

fn bridge_key() -> Vec<u8> {
    let mut key = vec![0u8; 32];
    key[31] = 1;
    key
}

fn other_key(tag: u8) -> Vec<u8> {
    let mut key = vec![7u8; 32];
    key[0] = tag;
    key
}

fn tx(slot: i64, signature: &str, account_keys: Vec<Vec<u8>>) -> TransactionRow {
    TransactionRow {
        slot,
        signature: signature.to_string(),
        account_keys,
        payload: vec![slot as u8, 0xab],
    }
}

fn contract() -> ContractConfiguration {
    ContractConfiguration { l2_message_program_id: BRIDGE_ID.to_string() }
}

fn service_over(rows: Vec<TransactionRow>) -> ExecuteService {
    let mut config = StoreConfiguration::new();
    for row in rows {
        assert!(config.transactions.append(row));
    }
    ExecuteService::new(config, &contract(), true).unwrap()
}

fn three_slot_ledger() -> Vec<TransactionRow> {
    vec![
        tx(2, "sig-2", vec![other_key(1), bridge_key()]),
        tx(3, "sig-3", vec![other_key(2), other_key(3)]),
        tx(4, "sig-4", vec![bridge_key(), other_key(4)]),
    ]
}

#[test]
fn extract_persist_advance_over_three_slots() {
    let mut service = service_over(three_slot_ledger());
    assert_eq!(service.get_initial_slot(), Ok(2));

    let records = service.filter_bridge_tx(2, 4).unwrap();
    assert_eq!(records.len(), 2);
    assert_eq!(records[0].slot, 2);
    assert_eq!(records[0].tx_hash, "sig-2");
    assert_eq!(records[0].status, BridgeTxStatus::Pending);
    assert_eq!(records[0].payload, vec![2u8, 0xab]);
    assert_eq!(records[1].slot, 4);
    assert_eq!(records[1].tx_hash, "sig-4");

    assert_eq!(service.insert_bridge_txs(records), Ok(2));
    service.update_last_slot(4);
    assert_eq!(service.get_last_slot(), Ok(4));
}

#[test]
fn reversed_range_is_refused_without_a_query() {
    let mut service = service_over(three_slot_ledger());
    let outcome = service.filter_bridge_tx(5, 3);
    let fault = outcome.unwrap_err();
    assert_eq!(fault, NodeError::EndBeforeStart { start_slot: 5, end_slot: 3 });
    assert_eq!(fault.kind(), ErrorKind::Range);
    assert_eq!(service.request_count(), 0);
}

#[test]
fn range_below_initial_slot_is_refused_without_a_query() {
    let mut service = service_over(three_slot_ledger());
    assert_eq!(
        service.filter_bridge_tx(1, 4).unwrap_err(),
        NodeError::BelowInitialSlot { start_slot: 1, end_slot: 4, initial_slot: 2 }
    );
    assert_eq!(
        service.get_transactions(0, 1).unwrap_err(),
        NodeError::BelowInitialSlot { start_slot: 0, end_slot: 1, initial_slot: 2 }
    );
    assert_eq!(
        service.get_transactions(-5, -1).unwrap_err(),
        NodeError::BelowInitialSlot { start_slot: -5, end_slot: -1, initial_slot: 2 }
    );
    assert_eq!(
        service.get_transactions(4, 2).unwrap_err(),
        NodeError::EndBeforeStart { start_slot: 4, end_slot: 2 }
    );
    assert_eq!(service.request_count(), 0);
}

#[test]
fn accepted_range_is_logged_once_per_query() {
    let mut service = service_over(three_slot_ledger());
    assert_eq!(service.get_transactions(2, 2).unwrap().len(), 1);
    assert_eq!(service.request_count(), 1);
    assert_eq!(service.filter_bridge_tx(2, 4).unwrap().len(), 2);
    assert_eq!(service.request_count(), 2);
}

#[test]
fn get_transactions_bounds_are_inclusive_and_ordered() {
    let mut service = service_over(three_slot_ledger());
    let rows = service.get_transactions(3, 4).unwrap();
    assert_eq!(rows.len(), 2);
    assert_eq!(rows[0].slot, 3);
    assert_eq!(rows[0].signature, "sig-3");
    assert_eq!(rows[1].slot, 4);
    assert_eq!(rows[1].account_keys, vec![bridge_key(), other_key(4)]);
    assert!(service.get_transactions(5, 9).unwrap().is_empty());
}

#[test]
fn cursor_defaults_to_initial_slot_and_reads_back_writes() {
    let mut service = service_over(Vec::new());
    assert_eq!(service.get_last_slot(), Ok(2));
    assert_eq!(service.get_last_slot_for_monitor(), Ok(2));

    service.update_last_slot(17);
    assert_eq!(service.get_last_slot(), Ok(17));
    assert_eq!(service.get_last_slot_for_monitor(), Ok(2));

    service.update_last_slot_for_monitor(9);
    assert_eq!(service.get_last_slot(), Ok(17));
    assert_eq!(service.get_last_slot_for_monitor(), Ok(9));

    service.update_last_slot(3);
    assert_eq!(service.get_last_slot(), Ok(3));
}

#[test]
fn cursor_opened_on_a_stored_slot_reads_it() {
    let mut config = StoreConfiguration::new();
    config.last_slot = Some(40);
    config.monitor_last_slot = Some(0);
    let service = ExecuteService::new(config, &contract(), false).unwrap();
    assert_eq!(service.get_last_slot(), Ok(40));
    assert_eq!(service.get_last_slot_for_monitor(), Ok(0));
}

#[test]
fn membership_does_not_depend_on_position_in_the_key_list() {
    let rows = vec![
        tx(2, "first", vec![bridge_key(), other_key(1), other_key(2)]),
        tx(2, "middle", vec![other_key(1), bridge_key(), other_key(2)]),
        tx(3, "last", vec![other_key(1), other_key(2), bridge_key()]),
        tx(3, "twice", vec![bridge_key(), bridge_key()]),
        tx(4, "absent", vec![other_key(1), other_key(2)]),
        tx(4, "empty", vec![]),
    ];
    let mut service = service_over(rows);
    let records = service.filter_bridge_tx(2, 4).unwrap();
    let hashes: Vec<&str> = records.iter().map(|r| r.tx_hash.as_str()).collect();
    assert_eq!(hashes, vec!["first", "middle", "last", "twice"]);
}

#[test]
fn a_key_that_differs_in_one_byte_does_not_match() {
    let mut near = bridge_key();
    near[0] = 1;
    let mut service = service_over(vec![tx(2, "near", vec![near])]);
    assert!(service.filter_bridge_tx(2, 2).unwrap().is_empty());
}

#[test]
fn program_id_is_decoded_from_base58_not_taken_as_bytes() {
    let text_bytes = BRIDGE_ID.as_bytes().to_vec();
    assert_eq!(text_bytes.len(), 32);
    let rows = vec![tx(2, "text", vec![text_bytes]), tx(3, "key", vec![bridge_key()])];
    let mut service = service_over(rows);
    let records = service.filter_bridge_tx(2, 3).unwrap();
    assert_eq!(records.len(), 1);
    assert_eq!(records[0].tx_hash, "key");
}

#[test]
fn system_program_id_decodes_to_zero_bytes() {
    let mut config = StoreConfiguration::new();
    assert!(config.transactions.append(tx(2, "zero", vec![vec![0u8; 32]])));
    assert!(config.transactions.append(tx(2, "one", vec![bridge_key()])));
    let contract =
        ContractConfiguration { l2_message_program_id: "11111111111111111111111111111111".to_string() };
    let mut service = ExecuteService::new(config, &contract, true).unwrap();
    let records = service.filter_bridge_tx(2, 2).unwrap();
    assert_eq!(records.len(), 1);
    assert_eq!(records[0].tx_hash, "zero");
}

#[test]
fn output_keeps_ascending_slot_order() {
    let rows = vec![
        tx(2, "a", vec![bridge_key()]),
        tx(2, "b", vec![bridge_key()]),
        tx(5, "c", vec![other_key(1)]),
        tx(7, "d", vec![bridge_key()]),
        tx(7, "e", vec![bridge_key()]),
        tx(9, "f", vec![bridge_key()]),
    ];
    let mut service = service_over(rows);
    let records = service.filter_bridge_tx(2, 8).unwrap();
    let slots: Vec<i64> = records.iter().map(|r| r.slot).collect();
    assert_eq!(slots, vec![2, 2, 7, 7]);
    let hashes: Vec<&str> = records.iter().map(|r| r.tx_hash.as_str()).collect();
    assert_eq!(hashes, vec!["a", "b", "d", "e"]);
}

#[test]
fn malformed_account_key_fails_the_batch() {
    let rows = vec![
        tx(2, "good", vec![bridge_key()]),
        tx(3, "bad", vec![other_key(1), vec![1u8; 31], vec![2u8; 33]]),
        tx(4, "later", vec![vec![]]),
    ];
    let mut service = service_over(rows);
    let fault = service.filter_bridge_tx(2, 4).unwrap_err();
    assert_eq!(fault, NodeError::MalformedAccountKey { slot: 3, index: 1 });
    assert_eq!(fault.kind(), ErrorKind::Decode);
    assert_eq!(service.request_count(), 1);
    assert_eq!(service.get_last_slot(), Ok(2));

    let records = service.filter_bridge_tx(2, 2).unwrap();
    assert_eq!(records.len(), 1);
}

#[test]
fn malformed_key_after_the_bridge_key_still_fails() {
    let rows = vec![tx(2, "late", vec![bridge_key(), vec![0u8; 5]])];
    let mut service = service_over(rows);
    assert_eq!(
        service.filter_bridge_tx(2, 2).unwrap_err(),
        NodeError::MalformedAccountKey { slot: 2, index: 1 }
    );
}

#[test]
fn invalid_program_id_is_a_configuration_error() {
    for id in ["BRIDGE1", "", "0OIl", "111111111111111111111111111111111111111111111111111111"] {
        let contract = ContractConfiguration { l2_message_program_id: id.to_string() };
        let fault = ExecuteService::new(StoreConfiguration::new(), &contract, true).unwrap_err();
        assert_eq!(fault, NodeError::InvalidProgramId);
        assert_eq!(fault.kind(), ErrorKind::Configuration);
    }
}

#[test]
fn raw_program_key_must_have_32_bytes() {
    assert_eq!(
        ExecuteService::with_program_key(StoreConfiguration::new(), vec![0u8; 31], true).unwrap_err(),
        NodeError::InvalidProgramId
    );
    assert_eq!(
        ExecuteService::with_program_key(StoreConfiguration::new(), vec![0u8; 33], false)
            .unwrap_err(),
        NodeError::InvalidProgramId
    );
    assert!(ExecuteService::with_program_key(StoreConfiguration::new(), bridge_key(), true).is_ok());
}

fn record(hash: &str, slot: i64, status: BridgeTxStatus) -> BridgeTxRecord {
    BridgeTxRecord { tx_hash: hash.to_string(), slot, status, payload: vec![1, 2, 3] }
}

#[test]
fn persisting_twice_writes_nothing_the_second_time() {
    let mut service = service_over(three_slot_ledger());
    let records = service.filter_bridge_tx(2, 4).unwrap();
    let again = records.clone();
    assert_eq!(service.insert_bridge_txs(records), Ok(2));
    assert_eq!(service.insert_bridge_txs(again), Ok(0));
    let stored = service.bridge_tx_range(i64::MIN, i64::MAX).unwrap();
    let hashes: Vec<&str> = stored.iter().map(|r| r.tx_hash.as_str()).collect();
    assert_eq!(hashes, vec!["sig-2", "sig-4"]);
}

#[test]
fn duplicates_inside_one_batch_are_written_once() {
    let mut service = service_over(Vec::new());
    let batch = vec![
        record("h1", 2, BridgeTxStatus::Pending),
        record("h2", 3, BridgeTxStatus::Pending),
        record("h1", 9, BridgeTxStatus::Confirmed),
    ];
    assert_eq!(service.insert_bridge_txs(batch), Ok(2));
    let stored = service.bridge_tx_range(0, 100).unwrap();
    assert_eq!(stored.len(), 2);
    assert_eq!(stored[0].tx_hash, "h1");
    assert_eq!(stored[0].slot, 2);
    assert_eq!(stored[0].status, BridgeTxStatus::Pending);
    assert_eq!(stored[1].tx_hash, "h2");
    assert_eq!(service.insert_bridge_txs(Vec::new()), Ok(0));
}

#[test]
fn update_of_unknown_hash_fails_and_writes_nothing() {
    let mut service = service_over(Vec::new());
    assert_eq!(service.insert_bridge_txs(vec![record("h1", 2, BridgeTxStatus::Pending)]), Ok(1));
    let fault = service.bridge_tx_update(record("nope", 6, BridgeTxStatus::Confirmed)).unwrap_err();
    assert_eq!(fault, NodeError::UnknownBridgeTx { slot: 6 });
    assert_eq!(fault.kind(), ErrorKind::NotFound);
    let stored = service.bridge_tx_range(0, 100).unwrap();
    assert_eq!(stored.len(), 1);
    assert_eq!(stored[0].tx_hash, "h1");
    assert_eq!(stored[0].status, BridgeTxStatus::Pending);
}

#[test]
fn update_replaces_the_status_only() {
    let mut service = service_over(Vec::new());
    let batch = vec![
        record("h1", 2, BridgeTxStatus::Pending),
        record("h2", 3, BridgeTxStatus::Pending),
    ];
    assert_eq!(service.insert_bridge_txs(batch), Ok(2));
    let mut change = record("h2", 77, BridgeTxStatus::Confirmed);
    change.payload = vec![9];
    let row = service.bridge_tx_update(change).unwrap();
    assert_eq!(row.tx_hash, "h2");
    assert_eq!(row.slot, 3);
    assert_eq!(row.status, BridgeTxStatus::Confirmed);
    assert_eq!(row.payload, vec![1, 2, 3]);
    let stored = service.bridge_tx_range(0, 100).unwrap();
    assert_eq!(stored[0].status, BridgeTxStatus::Pending);
    assert_eq!(stored[1].status, BridgeTxStatus::Confirmed);
    assert_eq!(stored[1].slot, 3);
}

#[test]
fn hashes_list_confirmed_rows_in_range_only() {
    let mut service = service_over(Vec::new());
    let batch = vec![
        record("h1", 2, BridgeTxStatus::Confirmed),
        record("h2", 3, BridgeTxStatus::Pending),
        record("h3", 4, BridgeTxStatus::Confirmed),
        record("h4", 9, BridgeTxStatus::Confirmed),
    ];
    assert_eq!(service.insert_bridge_txs(batch), Ok(4));
    assert_eq!(service.brige_txs_hashes(2, 4), Ok(vec!["h1".to_string(), "h3".to_string()]));
    assert_eq!(service.brige_txs_hashes(5, 3), Ok(Vec::new()));
    let in_range = service.bridge_tx_range(3, 4).unwrap();
    let hashes: Vec<&str> = in_range.iter().map(|r| r.tx_hash.as_str()).collect();
    assert_eq!(hashes, vec!["h2", "h3"]);
}

#[test]
fn one_cycle_persists_then_advances() {
    let mut service = service_over(three_slot_ledger());
    assert_eq!(service.process_range(2, 4), Ok(2));
    assert_eq!(service.get_last_slot(), Ok(4));
    assert_eq!(service.get_last_slot_for_monitor(), Ok(2));
    assert_eq!(service.request_count(), 1);
    let stored = service.bridge_tx_range(2, 4).unwrap();
    let slots: Vec<i64> = stored.iter().map(|r| r.slot).collect();
    assert_eq!(slots, vec![2, 4]);
}

#[test]
fn replaying_a_range_stores_nothing_twice() {
    let mut service = service_over(three_slot_ledger());
    assert_eq!(service.process_range(2, 3), Ok(1));
    assert_eq!(service.process_range(2, 4), Ok(1));
    assert_eq!(service.process_range(2, 4), Ok(0));
    assert_eq!(service.get_last_slot(), Ok(4));
    assert_eq!(service.bridge_tx_range(0, 10).unwrap().len(), 2);
}

#[test]
fn a_failed_cycle_leaves_cursor_and_store_alone() {
    let rows = vec![
        tx(2, "good", vec![bridge_key()]),
        tx(3, "bad", vec![vec![1u8; 4]]),
    ];
    let mut service = service_over(rows);
    service.update_last_slot(2);
    assert_eq!(
        service.process_range(3, 2).unwrap_err(),
        NodeError::EndBeforeStart { start_slot: 3, end_slot: 2 }
    );
    assert_eq!(service.request_count(), 0);
    assert_eq!(
        service.process_range(2, 3).unwrap_err(),
        NodeError::MalformedAccountKey { slot: 3, index: 0 }
    );
    assert_eq!(service.request_count(), 1);
    assert_eq!(service.get_last_slot(), Ok(2));
    assert!(service.bridge_tx_range(0, 10).unwrap().is_empty());
}

#[test]
fn program_id_outside_ascii_is_a_configuration_error() {
    let contract = ContractConfiguration { l2_message_program_id: "ééééééééééééééééé".to_string() };
    assert_eq!(
        ExecuteService::new(StoreConfiguration::new(), &contract, false).unwrap_err(),
        NodeError::InvalidProgramId
    );
}

#[test]
fn a_cycle_over_an_old_range_does_not_move_the_cursor_back() {
    let mut service = service_over(three_slot_ledger());
    service.update_last_slot(10);
    assert_eq!(service.process_range(2, 4), Ok(2));
    assert_eq!(service.get_last_slot(), Ok(10));
    assert_eq!(service.process_range(2, 12), Ok(0));
    assert_eq!(service.get_last_slot(), Ok(12));
}
