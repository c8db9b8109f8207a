//! Errors of the log processor.
use vstd::prelude::*;
use vstd::string::*;
use crate::indexer_db::entity::evm_logs::EvmLogsError;

verus! {

/// Errors of the log processor.
pub enum AppError {
    /// A required environment variable is not set; holds its name.
    MissingEnvVar(String),
    /// The ABI file of a contract cannot be read; holds the contract name.
    MissingContractAbiFile(String),
    /// The ABI file of a contract is not a valid ABI; holds the contract
    /// name.
    InvalidAbi(String),
    /// No contract is registered for a log's address; holds the address.
    UnsupportedAddress(String),
    /// The registered contract has no handler; holds its name.
    UnsupportedContract(String),
    /// The contract's ABI has no event with a log's signature; holds the
    /// contract name and the signature.
    MissingEvent(String, String),
    /// The contract handles no event of that name; holds the contract name
    /// and the event name.
    MissingEventHandler(String, String),
    /// A registered address is not an address; holds it.
    InvalidAddress(String),
    /// A stored log cannot be read back.
    EvmLogs { source: EvmLogsError },
}

/// The text that describes `e`.
pub open spec fn app_error_message(e: AppError) -> Seq<char> {
    match e {
        AppError::MissingEnvVar(v) => "Missing `"@ + v@ + "` environment variable"@,
        AppError::MissingContractAbiFile(c) => "Missing ABI file for contract: `"@ + c@ + "`"@,
        AppError::InvalidAbi(c) => "Missing ABI contents for contract: `"@ + c@ + "`"@,
        AppError::UnsupportedAddress(a) => "Address: `"@ + a@ + "` is not supported"@,
        AppError::UnsupportedContract(c) => "Contract: `"@ + c@
            + "` implementation not available in registry"@,
        AppError::MissingEvent(c, e) => "Contract: `"@ + c@ + "` does not have event: `"@ + e@
            + "`"@,
        AppError::MissingEventHandler(c, e) => "Contract: `"@ + c@
            + "` does not have event handler for: `"@ + e@ + "`"@,
        AppError::InvalidAddress(a) => "Invalid address: `"@ + a@ + "`"@,
        AppError::EvmLogs { source: _ } => "EVM Logs error occurred"@,
    }
}

/// `prefix`, then `a`, then `suffix`.
fn wrap(prefix: &str, a: &String, suffix: &str) -> (r: String)
    ensures
        r@ == prefix@ + a@ + suffix@,
{
    let mut r = prefix.to_owned();
    r.append(a.as_str());
    r.append(suffix);
    r
}

impl AppError {
    /// The text that describes this error.
    pub fn to_message(&self) -> (r: String)
        ensures
            r@ == app_error_message(*self),
    {
        match self {
            AppError::MissingEnvVar(v) => wrap("Missing `", v, "` environment variable"),
            AppError::MissingContractAbiFile(c) => wrap("Missing ABI file for contract: `", c, "`"),
            AppError::InvalidAbi(c) => wrap("Missing ABI contents for contract: `", c, "`"),
            AppError::UnsupportedAddress(a) => wrap("Address: `", a, "` is not supported"),
            AppError::UnsupportedContract(c) => wrap(
                "Contract: `",
                c,
                "` implementation not available in registry",
            ),
            AppError::MissingEvent(c, e) => {
                let mut r = wrap("Contract: `", c, "` does not have event: `");
                r.append(e.as_str());
                r.append("`");
                r
            },
            AppError::MissingEventHandler(c, e) => {
                let mut r = wrap("Contract: `", c, "` does not have event handler for: `");
                r.append(e.as_str());
                r.append("`");
                r
            },
            AppError::InvalidAddress(a) => wrap("Invalid address: `", a, "`"),
            AppError::EvmLogs { source: _ } => "EVM Logs error occurred".to_owned(),
        }
    }
}

} // verus!
