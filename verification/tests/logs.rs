use indexer::indexer_db::database_max_connections;
use indexer::indexer_db::entity::evm_logs::{EvmLogs, EvmLogsError, NewEvmLogs, RawLog};
use indexer::indexer_db::entity::evm_sync_logs::{bytea_literal, EvmSyncLogs};

fn raw_log() -> RawLog {
    RawLog {
        address: [0x11; 20],
        topics: vec![[0xaa; 32], [0xbb; 32]],
        data: vec![1, 2, 3],
        block_hash: Some([0x22; 32]),
        block_number: Some(19_000_123),
        transaction_hash: Some([0x33; 32]),
        transaction_index: Some(4),
        log_index: Some(9),
        removed: false,
    }
}

fn stored(new: &NewEvmLogs, id: i32) -> EvmLogs {
    EvmLogs {
        id,
        block_number: new.block_number.clone(),
        block_hash: new.block_hash,
        address: new.address,
        transaction_hash: new.transaction_hash,
        data: new.data.clone(),
        event_signature: new.event_signature,
        topics: new.topics.clone(),
        transaction_index: new.transaction_index,
        log_index: new.log_index,
        removed: new.removed,
        created_at: 1_700_000_000,
    }
}

fn create_error(log: RawLog) -> String {
    match EvmLogs::create(log) {
        Ok(_) => panic!("expected an error"),
        Err(e) => e.to_message(),
    }
}

#[test]
fn create_stores_every_field() {
    let new = EvmLogs::create(raw_log()).ok().unwrap();
    assert_eq!(new.block_hash, [0x22; 32]);
    assert_eq!(new.block_number, "19000123");
    assert_eq!(new.address, [0x11; 20]);
    assert_eq!(new.transaction_hash, [0x33; 32]);
    assert_eq!(new.transaction_index, 4);
    assert_eq!(new.log_index, 9);
    assert_eq!(new.event_signature, [0xaa; 32]);
    assert_eq!(new.topics, vec![[0xaa; 32], [0xbb; 32]]);
    assert_eq!(new.data, vec![1, 2, 3]);
    assert!(!new.removed);
}

#[test]
fn create_reports_the_first_missing_field() {
    let mut log = raw_log();
    log.block_hash = None;
    log.block_number = None;
    assert_eq!(create_error(log), "Missing block hash");

    let mut log = raw_log();
    log.block_number = None;
    log.transaction_hash = None;
    assert_eq!(create_error(log), "Missing block number");

    let mut log = raw_log();
    log.transaction_index = None;
    assert_eq!(create_error(log), "Missing transaction index");

    let mut log = raw_log();
    log.log_index = None;
    assert_eq!(create_error(log), "Missing log index");

    let mut log = raw_log();
    log.transaction_hash = None;
    assert_eq!(create_error(log), "Missing transaction hash");
}

#[test]
fn create_rejects_indexes_beyond_i64() {
    let mut log = raw_log();
    log.transaction_index = Some(i64::MAX as u64 + 1);
    assert_eq!(create_error(log), "Transaction index exceeds i64 range");

    let mut log = raw_log();
    log.log_index = Some(u64::MAX);
    assert_eq!(create_error(log), "Log index exceeds i64 range");

    let mut log = raw_log();
    log.log_index = Some(i64::MAX as u64);
    let new = EvmLogs::create(log).ok().unwrap();
    assert_eq!(new.log_index, i64::MAX);
}

#[test]
fn stored_log_reads_back() {
    let new = EvmLogs::create(raw_log()).ok().unwrap();
    let row = stored(&new, 1);
    let log = row.into_log().ok().unwrap();
    assert_eq!(log.block_number, 19_000_123);
    assert_eq!(log.address, [0x11; 20]);
    assert_eq!(log.topics, vec![[0xaa; 32], [0xbb; 32]]);
    assert_eq!(log.data, vec![1, 2, 3]);
    assert_eq!(log.transaction_hash, [0x33; 32]);
}

#[test]
fn stored_log_with_largest_block_number_reads_back() {
    let mut raw = raw_log();
    raw.block_number = Some(u64::MAX);
    let new = EvmLogs::create(raw).ok().unwrap();
    assert_eq!(new.block_number, "18446744073709551615");
    let log = stored(&new, 2).into_log().ok().unwrap();
    assert_eq!(log.block_number, u64::MAX);
}

#[test]
fn reading_back_rejects_bad_block_numbers_and_too_many_topics() {
    let new = EvmLogs::create(raw_log()).ok().unwrap();
    let mut row = stored(&new, 3);
    row.block_number = "12.5".to_string();
    match row.into_log() {
        Err(EvmLogsError::InvalidBlockNumber(t)) => assert_eq!(t, "12.5"),
        _ => panic!("expected InvalidBlockNumber"),
    }

    let mut row = stored(&new, 4);
    row.topics = vec![[0; 32]; 5];
    match row.into_log() {
        Err(e) => assert_eq!(e.to_message(), "Too many topics: 5"),
        Ok(_) => panic!("expected TooManyTopics"),
    }

    let mut row = stored(&new, 5);
    row.topics = vec![[0; 32]; 4];
    assert!(row.into_log().is_ok());
}

#[test]
fn sync_record_values() {
    assert_eq!(bytea_literal("4752ba5d"), "\\x4752ba5d");
    let new = EvmSyncLogs::create("ab12", 84532, None);
    assert_eq!(new.address, "\\xab12");
    assert_eq!(new.chain_id, 84532);
    assert_eq!(new.last_synced_block_number, 0);
    let new = EvmSyncLogs::create("ab12", u64::MAX, Some(77));
    assert_eq!(new.chain_id, -1);
    assert_eq!(new.last_synced_block_number, 77);
}

#[test]
fn database_pool_size_setting() {
    assert_eq!(database_max_connections(None), Some(5));
    assert_eq!(database_max_connections(Some("12")), Some(12));
    assert_eq!(database_max_connections(Some("many")), None);
    assert_eq!(database_max_connections(Some("4294967296")), None);
}

#[test]
fn topic_less_logs_get_their_field_error() {
    let mut log = raw_log();
    log.topics = vec![];
    log.block_hash = None;
    assert_eq!(create_error(log), "Missing block hash");

    let mut log = raw_log();
    log.topics = vec![];
    log.transaction_index = Some(u64::MAX);
    assert!(matches!(
        EvmLogs::missing_field(&log),
        Some(EvmLogsError::TransactionIndexOutOfRange)
    ));
    assert_eq!(create_error(log), "Transaction index exceeds i64 range");

    let mut log = raw_log();
    log.topics = vec![];
    assert!(EvmLogs::missing_field(&log).is_none());
}
