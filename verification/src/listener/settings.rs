//! The listener's settings, read from the text of its environment
//! variables.
use vstd::prelude::*;
use crate::decimal::{parse_u64, parse_unsigned};
use crate::listener::error::AppError;
use crate::hex::{address_from_text, parse_address};
use crate::text::{split, split_text, views};

verus! {

/// The chain to index, from the `CHAIN_ID` setting: its text read as a
/// `u64`; `MissingEnvVar("CHAIN_ID")` when it is unset and
/// `InvalidChainID` with the text when it is not a `u64`.
pub fn chain_id_setting(setting: Option<String>) -> (r: Result<u64, AppError>)
    ensures
        match setting {
            None => r matches Err(AppError::MissingEnvVar(name)) && name@ == "CHAIN_ID"@,
            Some(text) => match parse_unsigned(text@, u64::MAX as nat) {
                Some(v) => r == Ok::<u64, AppError>(v as u64),
                None => r matches Err(AppError::InvalidChainID(t)) && t@ == text@,
            },
        },
{
    match setting {
        None => Err(AppError::MissingEnvVar("CHAIN_ID".to_owned())),
        Some(text) => match parse_u64(text.as_str()) {
            Some(v) => Ok(v),
            None => Err(AppError::InvalidChainID(text)),
        },
    }
}

/// The contracts to watch, from the `CONTRACT_ADDRESSES` setting: its text
/// split at every comma; `MissingEnvVar("CONTRACT_ADDRESSES")` when it is
/// unset.
pub fn contract_addresses_setting(setting: Option<String>) -> (r: Result<Vec<String>, AppError>)
    ensures
        match setting {
            None => r matches Err(AppError::MissingEnvVar(name)) && name@
                == "CONTRACT_ADDRESSES"@,
            Some(text) => r matches Ok(v) && views(v@) == split(text@, ','),
        },
{
    match setting {
        None => Err(AppError::MissingEnvVar("CONTRACT_ADDRESSES".to_owned())),
        Some(text) => Ok(split_text(text.as_str(), ',')),
    }
}

/// The contract address that one entry of the `CONTRACT_ADDRESSES`
/// setting names: an optional `0x` and 40 hex digits; `None` for any other
/// text.
pub fn contract_address(text: &str) -> (r: Option<[u8; 20]>)
    ensures
        r is Some <==> address_from_text(text@) is Some,
        r matches Some(a) ==> a@ == address_from_text(text@)->0,
{
    parse_address(text)
}

} // verus!
