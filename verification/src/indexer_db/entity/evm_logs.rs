//! Raw event logs: checking and converting a log fetched from a node into
//! the values stored for it, and reading a stored log back.
use vstd::prelude::*;
use vstd::string::*;
use crate::decimal::{decimal, decimal_string, parse_u64, parse_unsigned};

verus! {

/// A log as a node returns it: the fields the indexer reads, with those a
/// node may leave out as `Option`s.
pub struct RawLog {
    pub address: [u8; 20],
    pub topics: Vec<[u8; 32]>,
    pub data: Vec<u8>,
    pub block_hash: Option<[u8; 32]>,
    pub block_number: Option<u64>,
    pub transaction_hash: Option<[u8; 32]>,
    pub transaction_index: Option<u64>,
    pub log_index: Option<u64>,
    pub removed: bool,
}

/// Why a log cannot be stored, or a stored log cannot be read back.
pub enum EvmLogsError {
    MissingBlockHash,
    MissingBlockNumber,
    MissingTransactionIndex,
    TransactionIndexOutOfRange,
    MissingLogIndex,
    LogIndexOutOfRange,
    MissingTransactionHash,
    /// The stored block number is not a decimal `u64`; holds its text.
    InvalidBlockNumber(String),
    /// A stored log has more than four topics; holds their number.
    TooManyTopics(usize),
}

/// The text that describes `e`.
pub open spec fn evm_logs_error_message(e: EvmLogsError) -> Seq<char> {
    match e {
        EvmLogsError::MissingBlockHash => "Missing block hash"@,
        EvmLogsError::MissingBlockNumber => "Missing block number"@,
        EvmLogsError::MissingTransactionIndex => "Missing transaction index"@,
        EvmLogsError::TransactionIndexOutOfRange => "Transaction index exceeds i64 range"@,
        EvmLogsError::MissingLogIndex => "Missing log index"@,
        EvmLogsError::LogIndexOutOfRange => "Log index exceeds i64 range"@,
        EvmLogsError::MissingTransactionHash => "Missing transaction hash"@,
        EvmLogsError::InvalidBlockNumber(text) => "Invalid block number: `"@ + text@ + "`"@,
        EvmLogsError::TooManyTopics(n) => "Too many topics: "@ + decimal(n as nat),
    }
}

impl EvmLogsError {
    /// The text that describes this error.
    pub fn to_message(&self) -> (r: String)
        ensures
            r@ == evm_logs_error_message(*self),
    {
        match self {
            EvmLogsError::MissingBlockHash => "Missing block hash".to_owned(),
            EvmLogsError::MissingBlockNumber => "Missing block number".to_owned(),
            EvmLogsError::MissingTransactionIndex => "Missing transaction index".to_owned(),
            EvmLogsError::TransactionIndexOutOfRange => "Transaction index exceeds i64 range".to_owned(),
            EvmLogsError::MissingLogIndex => "Missing log index".to_owned(),
            EvmLogsError::LogIndexOutOfRange => "Log index exceeds i64 range".to_owned(),
            EvmLogsError::MissingTransactionHash => "Missing transaction hash".to_owned(),
            EvmLogsError::InvalidBlockNumber(text) => {
                let mut r = "Invalid block number: `".to_owned();
                r.append(text.as_str());
                r.append("`");
                r
            },
            EvmLogsError::TooManyTopics(n) => {
                let mut r = "Too many topics: ".to_owned();
                let digits = decimal_string(*n as u64);
                r.append(digits.as_str());
                r
            },
        }
    }
}

/// The values inserted for a new log row. The block number is the decimal
/// text of the `NUMERIC` column.
pub struct NewEvmLogs {
    pub block_hash: [u8; 32],
    pub block_number: String,
    pub address: [u8; 20],
    pub transaction_hash: [u8; 32],
    pub transaction_index: i64,
    pub event_signature: [u8; 32],
    pub topics: Vec<[u8; 32]>,
    pub data: Vec<u8>,
    pub log_index: i64,
    pub removed: bool,
}

/// A row of `evm_logs`. The block number is the decimal text of the
/// `NUMERIC` column; `created_at` is in seconds since the Unix epoch.
pub struct EvmLogs {
    pub id: i32,
    pub block_number: String,
    pub block_hash: [u8; 32],
    pub address: [u8; 20],
    pub transaction_hash: [u8; 32],
    pub data: Vec<u8>,
    pub event_signature: [u8; 32],
    pub topics: Vec<[u8; 32]>,
    pub transaction_index: i64,
    pub log_index: i64,
    pub removed: bool,
    pub created_at: i64,
}

/// A stored log read back for processing.
pub struct DecodedLog {
    pub address: [u8; 20],
    pub topics: Vec<[u8; 32]>,
    pub data: Vec<u8>,
    pub block_number: u64,
    pub transaction_hash: [u8; 32],
}

/// The first check that `log` fails on its way to storage, if any: the
/// fields are checked in the order block hash, block number, transaction
/// index, log index, transaction hash; the two indexes must fit an `i64`.
pub open spec fn create_error(log: RawLog) -> Option<EvmLogsError> {
    if log.block_hash is None {
        Some(EvmLogsError::MissingBlockHash)
    } else if log.block_number is None {
        Some(EvmLogsError::MissingBlockNumber)
    } else if log.transaction_index is None {
        Some(EvmLogsError::MissingTransactionIndex)
    } else if log.transaction_index->0 > i64::MAX {
        Some(EvmLogsError::TransactionIndexOutOfRange)
    } else if log.log_index is None {
        Some(EvmLogsError::MissingLogIndex)
    } else if log.log_index->0 > i64::MAX {
        Some(EvmLogsError::LogIndexOutOfRange)
    } else if log.transaction_hash is None {
        Some(EvmLogsError::MissingTransactionHash)
    } else {
        None
    }
}

/// Law: a log passes every field check exactly when all its optional
/// fields are present and both indexes fit an `i64`; each error names a
/// field that is missing or out of range, every field checked before it
/// being in order.
pub proof fn law_create_error_characterised(log: RawLog)
    ensures
        create_error(log) is None <==> {
            &&& log.block_hash is Some
            &&& log.block_number is Some
            &&& log.transaction_index is Some
            &&& log.transaction_index->0 <= 0x7fff_ffff_ffff_ffff
            &&& log.log_index is Some
            &&& log.log_index->0 <= 0x7fff_ffff_ffff_ffff
            &&& log.transaction_hash is Some
        },
        create_error(log) == Some(EvmLogsError::MissingBlockHash) <==> log.block_hash is None,
        create_error(log) == Some(EvmLogsError::MissingBlockNumber) ==> log.block_number is None,
        create_error(log) == Some(EvmLogsError::MissingTransactionIndex)
            ==> log.transaction_index is None,
        create_error(log) == Some(EvmLogsError::TransactionIndexOutOfRange) ==> (
        log.transaction_index is Some && log.transaction_index->0 > 0x7fff_ffff_ffff_ffff),
        create_error(log) == Some(EvmLogsError::MissingLogIndex) ==> log.log_index is None,
        create_error(log) == Some(EvmLogsError::LogIndexOutOfRange) ==> (log.log_index is Some
            && log.log_index->0 > 0x7fff_ffff_ffff_ffff),
        create_error(log) == Some(EvmLogsError::MissingTransactionHash)
            ==> log.transaction_hash is None,
{
}

/// `row` holds the values stored for `log`: each field of the log, the
/// block number as decimal text and the first topic as event signature.
pub open spec fn created_from(row: NewEvmLogs, log: RawLog) -> bool {
    &&& row.block_hash == log.block_hash->0
    &&& row.block_number@ == decimal(log.block_number->0 as nat)
    &&& row.address == log.address
    &&& row.transaction_hash == log.transaction_hash->0
    &&& row.transaction_index == log.transaction_index->0
    &&& row.event_signature == log.topics@[0]
    &&& row.topics@ == log.topics@
    &&& row.data@ == log.data@
    &&& row.log_index == log.log_index->0
    &&& row.removed == log.removed
}

/// The stored row `row` holds the values `new` that were inserted.
pub open spec fn row_holds(row: EvmLogs, new: NewEvmLogs) -> bool {
    &&& row.block_number@ == new.block_number@
    &&& row.block_hash == new.block_hash
    &&& row.address == new.address
    &&& row.transaction_hash == new.transaction_hash
    &&& row.data@ == new.data@
    &&& row.event_signature == new.event_signature
    &&& row.topics@ == new.topics@
    &&& row.transaction_index == new.transaction_index
    &&& row.log_index == new.log_index
    &&& row.removed == new.removed
}

/// Why the stored row `row` cannot be read back, if it cannot: its block
/// number must be a decimal `u64`, then it may carry at most four topics.
pub open spec fn read_error(row: EvmLogs) -> Option<EvmLogsError> {
    if parse_unsigned(row.block_number@, u64::MAX as nat) is None {
        Some(EvmLogsError::InvalidBlockNumber(row.block_number))
    } else if row.topics@.len() > 4 {
        Some(EvmLogsError::TooManyTopics(row.topics@.len() as usize))
    } else {
        None
    }
}

impl EvmLogs {
    /// The first field check that `log` fails (`create_error`), if any.
    pub fn missing_field(log: &RawLog) -> (r: Option<EvmLogsError>)
        ensures
            r == create_error(*log),
    {
        if log.block_hash.is_none() {
            return Some(EvmLogsError::MissingBlockHash);
        }
        if log.block_number.is_none() {
            return Some(EvmLogsError::MissingBlockNumber);
        }
        match log.transaction_index {
            None => {
                return Some(EvmLogsError::MissingTransactionIndex);
            },
            Some(i) => {
                if i > 0x7fff_ffff_ffff_ffff {
                    return Some(EvmLogsError::TransactionIndexOutOfRange);
                }
            },
        }
        match log.log_index {
            None => {
                return Some(EvmLogsError::MissingLogIndex);
            },
            Some(i) => {
                if i > 0x7fff_ffff_ffff_ffff {
                    return Some(EvmLogsError::LogIndexOutOfRange);
                }
            },
        }
        if log.transaction_hash.is_none() {
            return Some(EvmLogsError::MissingTransactionHash);
        }
        None
    }

    /// The values stored for `log`, or the first check it fails
    /// (`create_error`). The event signature is the first topic, read only
    /// once every field check has passed: a log that passes them all must
    /// carry a topic.
    pub fn create(log: RawLog) -> (r: Result<NewEvmLogs, EvmLogsError>)
        requires
            create_error(log) is None ==> log.topics@.len() > 0,
        ensures
            match r {
                Ok(row) => create_error(log) is None && created_from(row, log),
                Err(e) => create_error(log) == Some(e),
            },
    {
        if let Some(e) = Self::missing_field(&log) {
            return Err(e);
        }
        let block_hash = log.block_hash.unwrap();
        let block_number = decimal_string(log.block_number.unwrap());
        let transaction_index = log.transaction_index.unwrap() as i64;
        let log_index = log.log_index.unwrap() as i64;
        let transaction_hash = log.transaction_hash.unwrap();
        let event_signature = log.topics[0];
        Ok(
            NewEvmLogs {
                block_hash,
                block_number,
                address: log.address,
                transaction_hash,
                transaction_index,
                event_signature,
                topics: log.topics,
                data: log.data,
                log_index,
                removed: log.removed,
            },
        )
    }

    /// The stored log read back: its address, topics, data, transaction
    /// hash and its block number read as a `u64`; or why it cannot be
    /// (`read_error`).
    pub fn into_log(self) -> (r: Result<DecodedLog, EvmLogsError>)
        ensures
            match r {
                Ok(log) => {
                    &&& read_error(self) is None
                    &&& parse_unsigned(self.block_number@, u64::MAX as nat) == Some(
                        log.block_number as nat,
                    )
                    &&& log.address == self.address
                    &&& log.topics@ == self.topics@
                    &&& log.data@ == self.data@
                    &&& log.transaction_hash == self.transaction_hash
                },
                Err(e) => read_error(self) == Some(e),
            },
    {
        let block_number = match parse_u64(self.block_number.as_str()) {
            Some(n) => n,
            None => {
                return Err(EvmLogsError::InvalidBlockNumber(self.block_number));
            },
        };
        if self.topics.len() > 4 {
            return Err(EvmLogsError::TooManyTopics(self.topics.len()));
        }
        Ok(
            DecodedLog {
                address: self.address,
                topics: self.topics,
                data: self.data,
                block_number,
                transaction_hash: self.transaction_hash,
            },
        )
    }
}

/// Law: a log that was stored reads back with the block number it was
/// stored with, whenever it has at most four topics (the most a log can
/// carry).
pub proof fn law_stored_log_reads_back(log: RawLog, new: NewEvmLogs, row: EvmLogs)
    requires
        create_error(log) is None,
        created_from(new, log),
        row_holds(row, new),
        log.topics@.len() <= 4,
    ensures
        read_error(row) is None,
        parse_unsigned(row.block_number@, u64::MAX as nat) == Some(log.block_number->0 as nat),
        row.topics@ == log.topics@,
        row.data@ == log.data@,
        row.address == log.address,
        row.transaction_hash == log.transaction_hash->0,
        row.event_signature == log.topics@[0],
{
    crate::decimal::law_decimal_reads_back(log.block_number->0 as nat, u64::MAX as nat);
}

} // verus!
