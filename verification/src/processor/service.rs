//! The processor's settings, read from the text of its environment
//! variables.
use vstd::prelude::*;
use crate::decimal::{parse_i32, parse_i32_spec, parse_u64, parse_unsigned};

verus! {

/// The text the poll interval setting takes when it is unset.
pub open spec fn default_poll_interval() -> Seq<char> {
    seq!['1', '0']
}

/// The text the batch size setting takes when it is unset.
pub open spec fn default_batch_size() -> Seq<char> {
    seq!['2', '5']
}

/// Seconds to wait when there is nothing to process, from the
/// `POLL_INTERVAL` setting (`"10"` when unset) read as a `u64`; `None`
/// when it is not one.
pub fn poll_interval_setting(setting: Option<&str>) -> (r: Option<u64>)
    ensures
        ({
            let text = match setting {
                Some(s) => s@,
                None => default_poll_interval(),
            };
            match r {
                Some(n) => parse_unsigned(text, u64::MAX as nat) == Some(n as nat),
                None => parse_unsigned(text, u64::MAX as nat) is None,
            }
        }),
{
    match setting {
        Some(s) => parse_u64(s),
        None => {
            let ten = "10";
            proof {
                reveal_strlit("10");
                assert(ten@ =~= default_poll_interval());
            }
            parse_u64(ten)
        },
    }
}

/// How many logs one round processes, from the `BATCH_SIZE` setting
/// (`"25"` when unset) read as an `i32`; `None` when it is not one.
pub fn batch_size_setting(setting: Option<&str>) -> (r: Option<i32>)
    ensures
        ({
            let text = match setting {
                Some(s) => s@,
                None => default_batch_size(),
            };
            match r {
                Some(n) => parse_i32_spec(text) == Some(n as int),
                None => parse_i32_spec(text) is None,
            }
        }),
{
    match setting {
        Some(s) => parse_i32(s),
        None => {
            let twenty_five = "25";
            proof {
                reveal_strlit("25");
                assert(twenty_five@ =~= default_batch_size());
            }
            parse_i32(twenty_five)
        },
    }
}

} // verus!
