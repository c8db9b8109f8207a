//! Verified core of an EVM event-log indexer: block-range planning,
//! log storage and read-back, the contract registry, event lookup by
//! signature digest, and the reading of settings.
pub mod decimal;
pub mod hex;
pub mod indexer_db;
pub mod listener;
pub mod processor;
pub mod text;
