use indexer::indexer_db::entity::evm_chains::EvmChains;
use indexer::listener::error::AppError;
use indexer::listener::service::{plan_fetch, FetchPlan, BLOCKS_PER_ROUND};
use indexer::listener::settings::{chain_id_setting, contract_address, contract_addresses_setting};

fn chain(last: i64) -> EvmChains {
    EvmChains {
        id: 84532,
        name: "base-sepolia".to_string(),
        last_synced_block_number: last,
        block_time: 2,
        created_at: 0,
        updated_at: 0,
    }
}

fn window(plan: FetchPlan) -> (u64, u64) {
    match plan {
        FetchPlan::Fetch { from_block, to_block } => (from_block, to_block),
        FetchPlan::FullyIndexed => panic!("expected a fetch"),
    }
}

#[test]
fn level_chain_is_fully_indexed() {
    assert!(matches!(plan_fetch(&chain(100), 100), FetchPlan::FullyIndexed));
    assert!(matches!(plan_fetch(&chain(0), 0), FetchPlan::FullyIndexed));
}

#[test]
fn never_synced_chain_fetches_everything() {
    assert_eq!(window(plan_fetch(&chain(0), 5000)), (0, 5000));
}

#[test]
fn rounds_cover_at_most_the_batch() {
    assert_eq!(window(plan_fetch(&chain(100), 1000)), (101, 125));
    assert_eq!(window(plan_fetch(&chain(100), 110)), (101, 110));
    assert_eq!(window(plan_fetch(&chain(100), 125)), (101, 125));
    assert_eq!(BLOCKS_PER_ROUND, 25);
}

#[test]
fn rounds_are_contiguous_until_level() {
    let latest = 180;
    let mut last: i64 = 100;
    let mut covered = Vec::new();
    loop {
        match plan_fetch(&chain(last), latest) {
            FetchPlan::FullyIndexed => break,
            FetchPlan::Fetch { from_block, to_block } => {
                covered.push((from_block, to_block));
                last = to_block as i64;
            }
        }
    }
    assert_eq!(covered, vec![(101, 125), (126, 150), (151, 175), (176, 180)]);
}

#[test]
fn chain_ahead_of_node_gets_an_inverted_window() {
    assert_eq!(window(plan_fetch(&chain(200), 150)), (201, 150));
}

#[test]
fn chain_id_setting_is_read_as_u64() {
    assert_eq!(chain_id_setting(Some("84532".to_string())).ok(), Some(84532));
    match chain_id_setting(Some("base".to_string())) {
        Err(e) => {
            assert!(matches!(&e, AppError::InvalidChainID(t) if t == "base"));
            assert_eq!(e.to_message(), "Invalid ChainID: `base`");
        }
        Ok(_) => panic!("expected InvalidChainID"),
    }
    match chain_id_setting(None) {
        Err(e) => assert_eq!(e.to_message(), "Missing `CHAIN_ID` environment variable"),
        Ok(_) => panic!("expected MissingEnvVar"),
    }
}

#[test]
fn contract_addresses_are_split_at_commas() {
    let v = contract_addresses_setting(Some("aa,bb".to_string())).ok().unwrap();
    assert_eq!(v, vec!["aa", "bb"]);
    match contract_addresses_setting(None) {
        Err(e) => assert_eq!(e.to_message(), "Missing `CONTRACT_ADDRESSES` environment variable"),
        Ok(_) => panic!("expected MissingEnvVar"),
    }
}

#[test]
fn contract_addresses_are_read_as_hex() {
    let expected: [u8; 20] = [
        0x47, 0x52, 0xba, 0x5d, 0xbc, 0x23, 0xf4, 0x4d, 0x87, 0x82, 0x62, 0x76, 0xbf, 0x6f, 0xd6,
        0xb1, 0xc3, 0x72, 0xad, 0x24,
    ];
    assert_eq!(contract_address("4752ba5DBc23f44D87826276BF6Fd6b1C372aD24"), Some(expected));
    assert_eq!(contract_address("0x4752ba5DBc23f44D87826276BF6Fd6b1C372aD24"), Some(expected));
    assert_eq!(contract_address("0X4752ba5DBc23f44D87826276BF6Fd6b1C372aD24"), None);
    assert_eq!(contract_address("4752ba5DBc23f44D87826276BF6Fd6b1C372aD2"), None);
    assert_eq!(contract_address(" 4752ba5DBc23f44D87826276BF6Fd6b1C372aD24"), None);
    assert_eq!(contract_address("4752ba5DBc23f44D87826276BF6Fd6b1C372aD2g"), None);
}
