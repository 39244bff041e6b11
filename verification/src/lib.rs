//! Lane-oriented scanning of a ledger for bridge transactions.
//!
//! A lane owns a cursor (the last ledger slot it has fully processed) and the
//! repositories it works against. One cycle fetches a closed range of slots,
//! keeps the transactions that name the bridge program among their accounts,
//! persists them keyed by hash, and only then advances the cursor.

pub mod account_audit_repo;
pub mod block_repo;
pub mod bridge_tx_repo;
pub mod brief_repo;
pub mod cursor;
pub mod error;
pub mod execute_service;
pub mod filter;
pub mod keys;
pub mod model;
pub mod theorems;
pub mod transaction_repo;
