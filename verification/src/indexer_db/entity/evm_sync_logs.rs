//! Per-contract sync progress.
use vstd::prelude::*;
use vstd::string::*;
use crate::text::push_char;

verus! {

/// A row of `evm_sync_logs`. Timestamps are seconds since the Unix epoch.
pub struct EvmSyncLogs {
    pub address: [u8; 20],
    pub last_synced_block_number: i64,
    pub created_at: i64,
    pub updated_at: i64,
}

/// The values bound when a sync record is inserted.
pub struct NewEvmSyncLogs {
    /// The address as a Postgres `BYTEA` hex literal.
    pub address: String,
    pub chain_id: i64,
    pub last_synced_block_number: i64,
}

/// The Postgres `BYTEA` hex literal for the hex text `address`: a
/// backslash, `x`, then the text.
pub open spec fn bytea_hex_literal(address: Seq<char>) -> Seq<char> {
    seq!['\\', 'x'] + address
}

/// Law: the literal is a backslash and `x` followed by the whole address
/// text: two characters longer, and the text comes back by dropping the
/// first two.
pub proof fn law_bytea_literal_holds_address(address: Seq<char>)
    ensures
        bytea_hex_literal(address).len() == address.len() + 2,
        bytea_hex_literal(address)[0] == '\\',
        bytea_hex_literal(address)[1] == 'x',
        bytea_hex_literal(address).skip(2) == address,
{
    assert(bytea_hex_literal(address).skip(2) =~= address);
}

/// The `BYTEA` literal under which the record of `address` is stored and
/// looked up.
pub fn bytea_literal(address: &str) -> (r: String)
    ensures
        r@ == bytea_hex_literal(address@),
{
    let mut r = String::new();
    push_char(&mut r, '\\');
    push_char(&mut r, 'x');
    r.append(address);
    r
}

impl EvmSyncLogs {
    /// The values inserted for a new sync record of `address` on
    /// `chain_id`: the address literal, the chain id as a signed 64-bit
    /// value, and the given last synced block, or block 0 when none is
    /// given.
    pub fn create(address: &str, chain_id: u64, last_synced_block_number: Option<i64>) -> (r:
        NewEvmSyncLogs)
        ensures
            r.address@ == bytea_hex_literal(address@),
            r.chain_id == chain_id as i64,
            r.last_synced_block_number == match last_synced_block_number {
                Some(n) => n,
                None => 0,
            },
    {
        NewEvmSyncLogs {
            address: bytea_literal(address),
            chain_id: chain_id as i64,
            last_synced_block_number: match last_synced_block_number {
                Some(n) => n,
                None => 0,
            },
        }
    }
}

} // verus!
