//! A chain whose logs are indexed, and how far it has been indexed.
use vstd::prelude::*;

verus! {

/// A row of `evm_chains`. Timestamps are seconds since the Unix epoch.
pub struct EvmChains {
    pub id: i64,
    pub name: String,
    pub last_synced_block_number: i64,
    pub block_time: i32,
    pub created_at: i64,
    pub updated_at: i64,
}

} // verus!
