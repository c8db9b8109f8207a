pub mod evm_chains;
pub mod evm_logs;
pub mod evm_sync_logs;
