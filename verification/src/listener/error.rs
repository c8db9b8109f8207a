//! Errors of the listener's start-up.
use vstd::prelude::*;
use vstd::string::*;

verus! {

/// Errors of the listener's start-up configuration.
pub enum AppError {
    /// A required environment variable is not set; holds its name.
    MissingEnvVar(String),
    /// The chain id setting is not a decimal `u64`; holds the rejected text.
    InvalidChainID(String),
}

/// The text that describes `e`.
pub open spec fn app_error_message(e: AppError) -> Seq<char> {
    match e {
        AppError::MissingEnvVar(name) => "Missing `"@ + name@ + "` environment variable"@,
        AppError::InvalidChainID(text) => "Invalid ChainID: `"@ + text@ + "`"@,
    }
}

impl AppError {
    /// The text that describes this error.
    pub fn to_message(&self) -> (r: String)
        ensures
            r@ == app_error_message(*self),
    {
        match self {
            AppError::MissingEnvVar(name) => {
                let mut r = "Missing `".to_owned();
                r.append(name.as_str());
                r.append("` environment variable");
                r
            },
            AppError::InvalidChainID(text) => {
                let mut r = "Invalid ChainID: `".to_owned();
                r.append(text.as_str());
                r.append("`");
                r
            },
        }
    }
}

} // verus!
