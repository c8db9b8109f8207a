use indexer::indexer_db::entity::evm_logs::{EvmLogs, EvmLogsError};
use indexer::processor::contract_handler::{abi_file_path, contract_abi_from_file, AbiEvent, ContractAbi};
use indexer::processor::contracts::{ContractRegistry, ProcessorTarget};
use indexer::processor::error::AppError;
use indexer::processor::service::{batch_size_setting, poll_interval_setting};
use indexer::processor::uniswap::{UniswapV3Factory, UniswapV3FactoryEvent};

const FACTORY: [u8; 20] = [
    0x47, 0x52, 0xba, 0x5d, 0xbc, 0x23, 0xf4, 0x4d, 0x87, 0x82, 0x62, 0x76, 0xbf, 0x6f, 0xd6, 0xb1,
    0xc3, 0x72, 0xad, 0x24,
];

fn hex32(s: &str) -> [u8; 32] {
    let mut out = [0u8; 32];
    for i in 0..32 {
        out[i] = u8::from_str_radix(&s[2 * i..2 * i + 2], 16).unwrap();
    }
    out
}

const POOL_CREATED: &str = "783cca1c0412dd0d695e784568c96da2e9c22ff989357a2e8b1d9b2b4e6b7118";
const OWNER_CHANGED: &str = "b532073b38c83145e3e5135377a08bf9aab55bc0fd7c1179cd4fb995d2a5159c";

fn factory_abi() -> ContractAbi {
    ContractAbi {
        events: vec![
            AbiEvent {
                name: "OwnerChanged".to_string(),
                signature: "OwnerChanged(address,address)".to_string(),
            },
            AbiEvent {
                name: "PoolCreated".to_string(),
                signature: "PoolCreated(address,address,uint24,int24,address)".to_string(),
            },
        ],
    }
}

fn message(r: Result<ProcessorTarget, AppError>) -> String {
    match r {
        Ok(_) => panic!("expected an error"),
        Err(e) => e.to_message(),
    }
}

#[test]
fn registered_address_resolves_to_its_handler() {
    let reg = ContractRegistry::new(Some("uniswap_v3_factory:4752ba5DBc23f44D87826276BF6Fd6b1C372aD24"))
        .ok()
        .unwrap();
    match reg.get_processor(FACTORY) {
        Ok(ProcessorTarget::UniswapV3Factory(a)) => assert_eq!(a, FACTORY),
        Err(e) => panic!("{}", e.to_message()),
    }
}

#[test]
fn entries_are_trimmed_and_later_ones_win() {
    let text = " uniswap_v3_factory : 4752ba5dbc23f44d87826276bf6fd6b1c372ad24 , other:4752BA5DBC23F44D87826276BF6FD6B1C372AD24";
    assert!(ContractRegistry::is_well_formed(text));
    let reg = ContractRegistry::new(Some(text)).ok().unwrap();
    assert_eq!(
        message(reg.get_processor(FACTORY)),
        "Contract: `other` implementation not available in registry"
    );
}

#[test]
fn unknown_address_is_unsupported() {
    let reg = ContractRegistry::new(Some("uniswap_v3_factory:4752ba5dbc23f44d87826276bf6fd6b1c372ad24"))
        .ok()
        .unwrap();
    let other = [0u8; 20];
    match reg.get_processor(other) {
        Err(AppError::UnsupportedAddress(a)) => {
            assert_eq!(a, "0000000000000000000000000000000000000000")
        }
        _ => panic!("expected UnsupportedAddress"),
    }
}

#[test]
fn prefixed_addresses_never_match() {
    let reg = ContractRegistry::new(Some("uniswap_v3_factory:0x4752ba5dbc23f44d87826276bf6fd6b1c372ad24"))
        .ok()
        .unwrap();
    assert_eq!(
        message(reg.get_processor(FACTORY)),
        "Address: `4752ba5dbc23f44d87826276bf6fd6b1c372ad24` is not supported"
    );
}

#[test]
fn contracts_setting_needs_colons_and_must_be_set() {
    assert!(!ContractRegistry::is_well_formed("uniswap_v3_factory"));
    assert!(!ContractRegistry::is_well_formed("a:b,"));
    assert!(!ContractRegistry::is_well_formed(""));
    assert!(ContractRegistry::is_well_formed("a:b,c:d:e"));
    match ContractRegistry::new(None) {
        Err(e) => assert_eq!(e.to_message(), "Missing `CONTRACTS` environment variable"),
        Ok(_) => panic!("expected MissingEnvVar"),
    }
}

#[test]
fn event_signature_names_the_event() {
    let abi = factory_abi();
    assert_eq!(
        abi.event_signature_to_name(UniswapV3Factory::NAME, hex32(POOL_CREATED)).ok(),
        Some("PoolCreated".to_string())
    );
    assert_eq!(
        abi.event_signature_to_name(UniswapV3Factory::NAME, hex32(OWNER_CHANGED)).ok(),
        Some("OwnerChanged".to_string())
    );
}

#[test]
fn keccak_of_empty_signature() {
    let abi = ContractAbi {
        events: vec![AbiEvent { name: "Empty".to_string(), signature: String::new() }],
    };
    let digest = hex32("c5d2460186f7233c927e7db2dcc703c0e500b653ca82273b7bfad8045d85a470");
    assert_eq!(abi.event_signature_to_name("c", digest).ok(), Some("Empty".to_string()));
}

#[test]
fn unknown_signature_is_a_missing_event() {
    let abi = factory_abi();
    match abi.event_signature_to_name(UniswapV3Factory::NAME, [0xab; 32]) {
        Err(e) => assert_eq!(
            e.to_message(),
            format!("Contract: `uniswap_v3_factory` does not have event: `0x{}`", "ab".repeat(32))
        ),
        Ok(_) => panic!("expected MissingEvent"),
    }
}

#[test]
fn prepare_log_finds_event_and_reads_log() {
    let abi = factory_abi();
    let row = EvmLogs {
        id: 1,
        block_number: "42".to_string(),
        block_hash: [1; 32],
        address: FACTORY,
        transaction_hash: [2; 32],
        data: vec![9],
        event_signature: hex32(POOL_CREATED),
        topics: vec![hex32(POOL_CREATED)],
        transaction_index: 0,
        log_index: 0,
        removed: false,
        created_at: 0,
    };
    let (name, log) = abi.prepare_log(UniswapV3Factory::NAME, row).ok().unwrap();
    assert_eq!(name, "PoolCreated");
    assert_eq!(log.block_number, 42);
    assert_eq!(log.address, FACTORY);
}

#[test]
fn prepare_log_reports_unreadable_logs() {
    let abi = factory_abi();
    let row = EvmLogs {
        id: 1,
        block_number: "x".to_string(),
        block_hash: [1; 32],
        address: FACTORY,
        transaction_hash: [2; 32],
        data: vec![],
        event_signature: hex32(OWNER_CHANGED),
        topics: vec![hex32(OWNER_CHANGED)],
        transaction_index: 0,
        log_index: 0,
        removed: false,
        created_at: 0,
    };
    match abi.prepare_log(UniswapV3Factory::NAME, row) {
        Err(AppError::EvmLogs { source: EvmLogsError::InvalidBlockNumber(t) }) => assert_eq!(t, "x"),
        _ => panic!("expected an EvmLogs error"),
    }
}

#[test]
fn factory_events_route_to_handlers() {
    assert!(matches!(
        UniswapV3Factory::event_handler("PoolCreated"),
        Ok(UniswapV3FactoryEvent::PoolCreated)
    ));
    assert!(matches!(
        UniswapV3Factory::event_handler("OwnerChanged"),
        Ok(UniswapV3FactoryEvent::OwnerChanged)
    ));
    assert!(matches!(
        UniswapV3Factory::event_handler("FeeAmountEnabled"),
        Ok(UniswapV3FactoryEvent::FeeAmountEnabled)
    ));
    match UniswapV3Factory::event_handler("Swap") {
        Err(e) => assert_eq!(
            e.to_message(),
            "Contract: `uniswap_v3_factory` does not have event handler for: `Swap`"
        ),
        Ok(_) => panic!("expected MissingEventHandler"),
    }
}

#[test]
fn abi_path_and_settings() {
    assert_eq!(
        abi_file_path(Some("processor/artifacts/abi"), "uniswap_v3_factory").ok(),
        Some("processor/artifacts/abi/uniswap_v3_factory.json".to_string())
    );
    match abi_file_path(None, "x") {
        Err(e) => assert_eq!(e.to_message(), "Missing `ARTIFACTS_BASE_PATH` environment variable"),
        Ok(_) => panic!("expected MissingEnvVar"),
    }
    assert_eq!(poll_interval_setting(None), Some(10));
    assert_eq!(poll_interval_setting(Some("3")), Some(3));
    assert_eq!(poll_interval_setting(Some("-3")), None);
    assert_eq!(batch_size_setting(None), Some(25));
    assert_eq!(batch_size_setting(Some("-5")), Some(-5));
    assert_eq!(batch_size_setting(Some("ten")), None);
}

#[test]
fn error_messages() {
    assert_eq!(
        AppError::MissingContractAbiFile("u".to_string()).to_message(),
        "Missing ABI file for contract: `u`"
    );
    assert_eq!(
        AppError::InvalidAbi("u".to_string()).to_message(),
        "Missing ABI contents for contract: `u`"
    );
    assert_eq!(AppError::InvalidAddress("zz".to_string()).to_message(), "Invalid address: `zz`");
    assert_eq!(
        AppError::EvmLogs { source: EvmLogsError::MissingBlockHash }.to_message(),
        "EVM Logs error occurred"
    );
}

const FACTORY_ABI: &str = r#"[
  {"type":"event","name":"PoolCreated","anonymous":false,"inputs":[
    {"name":"token0","type":"address","indexed":true},
    {"name":"token1","type":"address","indexed":true},
    {"name":"fee","type":"uint24","indexed":true},
    {"name":"tickSpacing","type":"int24","indexed":false},
    {"name":"pool","type":"address","indexed":false}]},
  {"type":"event","name":"OwnerChanged","anonymous":false,"inputs":[
    {"name":"oldOwner","type":"address","indexed":true},
    {"name":"newOwner","type":"address","indexed":true}]},
  {"type":"function","name":"owner","inputs":[],"outputs":[{"name":"","type":"address"}],"stateMutability":"view"}
]"#;

#[test]
fn abi_file_contents_give_the_events() {
    let abi = contract_abi_from_file("uniswap_v3_factory", Some(FACTORY_ABI.as_bytes())).ok().unwrap();
    let pairs: Vec<(String, String)> =
        abi.events.iter().map(|e| (e.name.clone(), e.signature.clone())).collect();
    assert_eq!(
        pairs,
        vec![
            ("OwnerChanged".to_string(), "OwnerChanged(address,address)".to_string()),
            (
                "PoolCreated".to_string(),
                "PoolCreated(address,address,uint24,int24,address)".to_string()
            ),
        ]
    );
    assert_eq!(
        abi.event_signature_to_name(UniswapV3Factory::NAME, hex32(POOL_CREATED)).ok(),
        Some("PoolCreated".to_string())
    );
}

#[test]
fn unreadable_or_invalid_abi_files() {
    match contract_abi_from_file("u", None) {
        Err(e) => assert_eq!(e.to_message(), "Missing ABI file for contract: `u`"),
        Ok(_) => panic!("expected MissingContractAbiFile"),
    }
    match contract_abi_from_file("u", Some(b"{not json")) {
        Err(e) => assert_eq!(e.to_message(), "Missing ABI contents for contract: `u`"),
        Ok(_) => panic!("expected InvalidAbi"),
    }
}

#[test]
fn factory_from_address_text() {
    let f = UniswapV3Factory::new("0x4752ba5DBc23f44D87826276BF6Fd6b1C372aD24", factory_abi())
        .ok()
        .unwrap();
    assert_eq!(f.address, FACTORY);
    match UniswapV3Factory::new("4752ba5d", factory_abi()) {
        Err(e) => assert_eq!(e.to_message(), "Invalid address: `4752ba5d`"),
        Ok(_) => panic!("expected InvalidAddress"),
    }
}
