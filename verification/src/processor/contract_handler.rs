//! What every contract handler does with a stored log before handling it:
//! find the ABI event that emitted it and read the log back.
use vstd::prelude::*;
use vstd::string::*;
use vstd::utf8::encode_utf8;
use crate::hex::{hex_of, keccak256, keccak256_digest, same_bytes, vec_to_hex};
use crate::indexer_db::entity::evm_logs::{DecodedLog, EvmLogs, read_error};
use crate::decimal::parse_unsigned;
use crate::processor::error::AppError;

verus! {

/// A contract's ABI as the processor reads it: the name and canonical
/// signature (`Name(type,...)`) of each event, in order of name.
pub struct ContractAbi {
    pub events: Vec<AbiEvent>,
}

/// One event of an ABI.
pub struct AbiEvent {
    pub name: String,
    pub signature: String,
}

/// The events that a JSON ABI file with contents `bytes` declares, as
/// `serde_json` reads it into alloy's `JsonAbi`: for each event name, in
/// order of name, the name and the canonical signature of its first
/// declaration; `None` when the contents are not a JSON ABI.
pub uninterp spec fn abi_events_of(bytes: Seq<u8>) -> Option<Seq<(Seq<char>, Seq<char>)>>;

/// The (name, signature) pairs of a list of events.
pub open spec fn event_pairs(events: Seq<AbiEvent>) -> Seq<(Seq<char>, Seq<char>)> {
    events.map_values(|e: AbiEvent| (e.name@, e.signature@))
}

/// Reads a JSON ABI file's contents with `serde_json::from_slice` into
/// alloy's `JsonAbi`, and takes from each of its event entries the name and
/// the canonical signature (`Event::signature`) of the entry's first
/// event. The contract names the result: it is a function of the bytes.
#[verifier::external_body]
fn parse_abi(bytes: &[u8]) -> (r: Option<ContractAbi>)
    ensures
        r is Some <==> abi_events_of(bytes@) is Some,
        r matches Some(abi) ==> event_pairs(abi.events@) == abi_events_of(bytes@)->0,
{
    let abi = serde_json::from_slice::<alloy::json_abi::JsonAbi>(bytes).ok()?;
    let events = abi
        .events
        .iter()
        .map(|(name, params)| AbiEvent { name: name.clone(), signature: params[0].signature() })
        .collect();
    Some(ContractAbi { events })
}

/// The ABI of `contract_name` from the contents of its ABI file:
/// `MissingContractAbiFile` with the name when the file could not be read
/// (`None`), `InvalidAbi` with the name when its contents are not a JSON
/// ABI, and otherwise the events the file declares.
pub fn contract_abi_from_file(contract_name: &str, contents: Option<&[u8]>) -> (r: Result<
    ContractAbi,
    AppError,
>)
    ensures
        match contents {
            None => r matches Err(AppError::MissingContractAbiFile(c)) && c@ == contract_name@,
            Some(bytes) => match abi_events_of(bytes@) {
                None => r matches Err(AppError::InvalidAbi(c)) && c@ == contract_name@,
                Some(events) => r matches Ok(abi) && event_pairs(abi.events@) == events,
            },
        },
{
    match contents {
        None => Err(AppError::MissingContractAbiFile(contract_name.to_owned())),
        Some(bytes) => match parse_abi(bytes) {
            Some(abi) => Ok(abi),
            None => Err(AppError::InvalidAbi(contract_name.to_owned())),
        },
    }
}

/// A log's event signature is the Keccak-256 digest of the event's
/// canonical signature text (UTF-8).
pub open spec fn event_matches(event: AbiEvent, signature: Seq<u8>) -> bool {
    keccak256_digest(encode_utf8(event.signature@)) == signature
}

/// `i` is the first event of `events` with the signature `signature`.
pub open spec fn first_match(events: Seq<AbiEvent>, signature: Seq<u8>, i: int) -> bool {
    &&& 0 <= i < events.len()
    &&& event_matches(events[i], signature)
    &&& forall|j: int| 0 <= j < i ==> !event_matches(#[trigger] events[j], signature)
}

/// No event of `events` has the signature `signature`.
pub open spec fn no_match(events: Seq<AbiEvent>, signature: Seq<u8>) -> bool {
    forall|j: int| 0 <= j < events.len() ==> !event_matches(#[trigger] events[j], signature)
}

/// `bytes` as `0x`-prefixed lowercase hex.
pub open spec fn prefixed_hex(bytes: Seq<u8>) -> Seq<char> {
    seq!['0', 'x'] + hex_of(bytes)
}

/// The error for a signature that no event of the contract has.
pub open spec fn is_missing_event(e: AppError, contract_name: Seq<char>, signature: Seq<u8>) -> bool {
    e matches AppError::MissingEvent(c, s) && c@ == contract_name && s@ == prefixed_hex(signature)
}

impl ContractAbi {
    /// The name of the first event whose signature digest is `signature`;
    /// `MissingEvent` with the contract's name and the signature as
    /// `0x`-prefixed hex when there is none.
    pub fn event_signature_to_name(&self, contract_name: &str, signature: [u8; 32]) -> (r: Result<
        String,
        AppError,
    >)
        ensures
            match r {
                Ok(name) => exists|i: int|
                    first_match(self.events@, signature@, i) && name@ == self.events@[i].name@,
                Err(e) => no_match(self.events@, signature@) && is_missing_event(
                    e,
                    contract_name@,
                    signature@,
                ),
            },
    {
        let mut log_event_signature = "0x".to_owned();
        let hex = vec_to_hex(&signature);
        log_event_signature.append(hex.as_str());
        let n = self.events.len();
        let mut i: usize = 0;
        while i < n
            invariant
                n == self.events@.len(),
                i <= n,
                forall|j: int| 0 <= j < i ==> !event_matches(#[trigger] self.events@[j], signature@),
            decreases n - i,
        {
            let event = &self.events[i];
            let digest = keccak256(event.signature.as_str().as_bytes());
            if same_bytes(&digest, &signature) {
                proof {
                    assert(first_match(self.events@, signature@, i as int));
                }
                return Ok(event.name.clone());
            }
            i = i + 1;
        }
        proof {
            reveal_strlit("0x");
            assert(log_event_signature@ =~= prefixed_hex(signature@));
        }
        Err(AppError::MissingEvent(contract_name.to_owned(), log_event_signature))
    }

    /// What a handler is given for a stored log: the name of the event
    /// that emitted it (found as `event_signature_to_name` finds it) and the
    /// log read back (`EvmLogs::into_log`), in that order; the first of the
    /// two to fail gives the error.
    pub fn prepare_log(&self, contract_name: &str, unprocessed_log: EvmLogs) -> (r: Result<
        (String, DecodedLog),
        AppError,
    >)
        ensures
            ({
                let sig = unprocessed_log.event_signature@;
                match r {
                    Ok((name, log)) => {
                        &&& exists|i: int|
                            first_match(self.events@, sig, i) && name@ == self.events@[i].name@
                        &&& read_error(unprocessed_log) is None
                        &&& parse_unsigned(unprocessed_log.block_number@, u64::MAX as nat) == Some(
                            log.block_number as nat,
                        )
                        &&& log.address == unprocessed_log.address
                        &&& log.topics@ == unprocessed_log.topics@
                        &&& log.data@ == unprocessed_log.data@
                        &&& log.transaction_hash == unprocessed_log.transaction_hash
                    },
                    Err(e) => {
                        ||| no_match(self.events@, sig) && is_missing_event(e, contract_name@, sig)
                        ||| !no_match(self.events@, sig) && (read_error(unprocessed_log) matches Some(
                            source,
                        ) && e == (AppError::EvmLogs { source }))
                    },
                }
            }),
    {
        let event_name = match self.event_signature_to_name(
            contract_name,
            unprocessed_log.event_signature,
        ) {
            Ok(name) => name,
            Err(e) => {
                return Err(e);
            },
        };
        match unprocessed_log.into_log() {
            Ok(log) => Ok((event_name, log)),
            Err(source) => Err(AppError::EvmLogs { source }),
        }
    }
}

/// Where the ABI of `contract_name` is stored: `{base}/{contract_name}.json`
/// under the `ARTIFACTS_BASE_PATH` setting; `MissingEnvVar` when that is
/// unset.
pub fn abi_file_path(base: Option<&str>, contract_name: &str) -> (r: Result<String, AppError>)
    ensures
        match base {
            None => r matches Err(AppError::MissingEnvVar(v)) && v@ == "ARTIFACTS_BASE_PATH"@,
            Some(b) => r matches Ok(path) && path@ == b@ + "/"@ + contract_name@ + ".json"@,
        },
{
    match base {
        None => Err(AppError::MissingEnvVar("ARTIFACTS_BASE_PATH".to_owned())),
        Some(b) => {
            let mut path = b.to_owned();
            path.append("/");
            path.append(contract_name);
            path.append(".json");
            Ok(path)
        },
    }
}

} // verus!
