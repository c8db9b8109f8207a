//! The indexer's stored records and the values written for them.
use vstd::prelude::*;
use crate::decimal::{parse_unsigned, parse_u32};

pub mod entity;

verus! {

/// The value the connection-pool size setting takes when it is unset.
pub open spec fn default_max_connections() -> Seq<char> {
    seq!['5']
}

/// The connection-pool size from the `DATABASE_MAX_CONNECTIONS` setting:
/// the setting (or `"5"` when it is unset) read as a `u32`; `None` when
/// it is not one.
pub fn database_max_connections(setting: Option<&str>) -> (r: Option<u32>)
    ensures
        ({
            let text = match setting {
                Some(s) => s@,
                None => default_max_connections(),
            };
            match r {
                Some(n) => parse_unsigned(text, u32::MAX as nat) == Some(n as nat),
                None => parse_unsigned(text, u32::MAX as nat) is None,
            }
        }),
{
    match setting {
        Some(s) => parse_u32(s),
        None => {
            let five = "5";
            proof {
                reveal_strlit("5");
                assert(five@ =~= default_max_connections());
            }
            parse_u32(five)
        },
    }
}

} // verus!
