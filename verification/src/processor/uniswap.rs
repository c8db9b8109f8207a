//! The Uniswap V3 factory contract: its address and ABI, and which of its
//! events it handles.
use vstd::prelude::*;
use crate::processor::contract_handler::ContractAbi;
use crate::processor::error::AppError;
use crate::hex::{address_from_text, parse_address};
use crate::text::same_text;

verus! {

/// The Uniswap V3 factory contract at `address`, with its ABI.
pub struct UniswapV3Factory {
    pub address: [u8; 20],
    pub abi: ContractAbi,
}

/// The factory events that have a handler.
pub enum UniswapV3FactoryEvent {
    PoolCreated,
    OwnerChanged,
    FeeAmountEnabled,
}

impl UniswapV3Factory {
    /// The name under which the contract is registered and its ABI file
    /// is stored.
    pub const NAME: &'static str = "uniswap_v3_factory";

    /// The factory at the address that `address` spells (an optional `0x`
    /// and 40 hex digits), with the ABI `abi`; `InvalidAddress` with the
    /// text for any other text.
    pub fn new(address: &str, abi: ContractAbi) -> (r: Result<Self, AppError>)
        ensures
            match address_from_text(address@) {
                Some(bytes) => r matches Ok(f) && f.address@ == bytes && f.abi == abi,
                None => r matches Err(AppError::InvalidAddress(a)) && a@ == address@,
            },
    {
        match parse_address(address) {
            Some(contract_address) => Ok(UniswapV3Factory { address: contract_address, abi }),
            None => Err(AppError::InvalidAddress(address.to_owned())),
        }
    }

    /// The handler for the event named `event`: `PoolCreated`,
    /// `OwnerChanged` and `FeeAmountEnabled` have one;
    /// `MissingEventHandler` with the contract's and the event's name for
    /// any other.
    pub fn event_handler(event: &str) -> (r: Result<UniswapV3FactoryEvent, AppError>)
        ensures
            event@ == "PoolCreated"@ ==> r matches Ok(UniswapV3FactoryEvent::PoolCreated),
            event@ == "OwnerChanged"@ ==> r matches Ok(UniswapV3FactoryEvent::OwnerChanged),
            event@ == "FeeAmountEnabled"@ ==> r matches Ok(
                UniswapV3FactoryEvent::FeeAmountEnabled,
            ),
            event@ != "PoolCreated"@ && event@ != "OwnerChanged"@ && event@
                != "FeeAmountEnabled"@ ==> (r matches Err(AppError::MissingEventHandler(c, e))
                && c@ == Self::NAME@ && e@ == event@),
    {
        proof {
            reveal_strlit("PoolCreated");
            reveal_strlit("OwnerChanged");
            reveal_strlit("FeeAmountEnabled");
            assert("PoolCreated"@[0] == 'P' && "OwnerChanged"@[0] == 'O' && "FeeAmountEnabled"@[0]
                == 'F');
        }
        if same_text(event, "PoolCreated") {
            Ok(UniswapV3FactoryEvent::PoolCreated)
        } else if same_text(event, "OwnerChanged") {
            Ok(UniswapV3FactoryEvent::OwnerChanged)
        } else if same_text(event, "FeeAmountEnabled") {
            Ok(UniswapV3FactoryEvent::FeeAmountEnabled)
        } else {
            Err(AppError::MissingEventHandler(Self::NAME.to_owned(), event.to_owned()))
        }
    }
}

} // verus!
