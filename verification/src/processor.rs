pub mod contract_handler;
pub mod contracts;
pub mod error;
pub mod service;
pub mod uniswap;
