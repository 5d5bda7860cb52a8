use molt_marketplace::cycle::{
    chain_caught_up, contract_ranges, default_chain_configs, ContractKind, MAINNET_CHAIN_ID, MAINNET_IDENTITY,
    MAINNET_REPUTATION, TESTNET_CHAIN_ID, TESTNET_IDENTITY, TESTNET_REPUTATION,
};
use molt_marketplace::schedule::{plan_batches, POLL_INTERVAL_SECS};

/// Batch size used by the batch calculations below.
const BLOCK_BATCH_SIZE: u64 = 1000;

#[test]
fn mainnet_chain_id_is_143() {
    assert_eq!(MAINNET_CHAIN_ID, 143);
}

#[test]
fn testnet_chain_id_is_10143() {
    assert_eq!(TESTNET_CHAIN_ID, 10143);
}

#[test]
fn mainnet_identity_address_is_valid_hex() {
    assert!(MAINNET_IDENTITY.starts_with("0x"));
    assert_eq!(MAINNET_IDENTITY.len(), 42);
    assert!(MAINNET_IDENTITY[2..].chars().all(|c| c.is_ascii_hexdigit()));
}

#[test]
fn mainnet_reputation_address_is_valid_hex() {
    assert!(MAINNET_REPUTATION.starts_with("0x"));
    assert_eq!(MAINNET_REPUTATION.len(), 42);
    assert!(MAINNET_REPUTATION[2..].chars().all(|c| c.is_ascii_hexdigit()));
}

#[test]
fn testnet_identity_address_is_valid_hex() {
    assert!(TESTNET_IDENTITY.starts_with("0x"));
    assert_eq!(TESTNET_IDENTITY.len(), 42);
    assert!(TESTNET_IDENTITY[2..].chars().all(|c| c.is_ascii_hexdigit()));
}

#[test]
fn testnet_reputation_address_is_valid_hex() {
    assert!(TESTNET_REPUTATION.starts_with("0x"));
    assert_eq!(TESTNET_REPUTATION.len(), 42);
    assert!(TESTNET_REPUTATION[2..].chars().all(|c| c.is_ascii_hexdigit()));
}

#[test]
fn all_contract_addresses_start_with_8004() {
    assert!(MAINNET_IDENTITY.starts_with("0x8004"));
    assert!(MAINNET_REPUTATION.starts_with("0x8004"));
    assert!(TESTNET_IDENTITY.starts_with("0x8004"));
    assert!(TESTNET_REPUTATION.starts_with("0x8004"));
}

#[test]
fn block_batch_size_is_1000() {
    assert_eq!(BLOCK_BATCH_SIZE, 1000);
}

#[test]
fn poll_interval_is_2_seconds() {
    assert_eq!(POLL_INTERVAL_SECS, 2);
}

#[test]
fn batch_calculation_single_batch() {
    let from = 100u64;
    let to = 599u64;
    let ranges = plan_batches(from as i64 - 1, to, BLOCK_BATCH_SIZE, 10);
    assert_eq!(ranges.len(), 1);
    assert_eq!(ranges[0].from, 100);
    assert_eq!(ranges[0].to, 599);
}

#[test]
fn batch_calculation_exact_batch_boundary() {
    let from = 0u64;
    let to = 999u64;
    let ranges = plan_batches(from as i64 - 1, to, BLOCK_BATCH_SIZE, 10);
    assert_eq!(ranges.len(), 1);
    assert_eq!(ranges[0].to, 999);
}

#[test]
fn batch_calculation_multiple_batches() {
    let from = 0u64;
    let to = 2500u64;
    let ranges = plan_batches(from as i64 - 1, to, BLOCK_BATCH_SIZE, 10);
    for r in &ranges {
        assert!(r.to >= r.from);
        assert!(r.to <= to);
        assert!(r.to - r.from < BLOCK_BATCH_SIZE);
    }
    // 0-999, 1000-1999, 2000-2500 => 3 batches
    assert_eq!(ranges.len(), 3);
    assert_eq!((ranges[0].from, ranges[0].to), (0, 999));
    assert_eq!((ranges[1].from, ranges[1].to), (1000, 1999));
    assert_eq!((ranges[2].from, ranges[2].to), (2000, 2500));
}

#[test]
fn batch_calculation_single_block() {
    let from = 5000u64;
    let to = 5000u64;
    let ranges = plan_batches(from as i64 - 1, to, BLOCK_BATCH_SIZE, 10);
    assert_eq!(ranges.len(), 1);
    assert_eq!(ranges[0].to, 5000);
}

#[test]
fn batch_from_never_exceeds_to() {
    let from = 10u64;
    let to = 15u64;
    let ranges = plan_batches(from as i64 - 1, to, BLOCK_BATCH_SIZE, 10);
    for r in &ranges {
        assert!(r.to <= to);
    }
    let next_from = ranges.last().unwrap().to + 1;
    assert!(next_from > to);
}

#[test]
fn last_block_comparison_logic() {
    let identity_last: i64 = 1000;
    let latest_block: u64 = 2000;
    let configs = default_chain_configs(true, false, "https://rpc.monad.xyz".to_string(), String::new());
    let chain = &configs[0];

    if !chain_caught_up(chain, identity_last, latest_block as i64, latest_block as i64, latest_block) {
        let ranges = contract_ranges(chain, ContractKind::Identity, identity_last, latest_block);
        let from = ranges[0].from;
        assert_eq!(from, 1001);
    } else {
        panic!("Should have entered the if branch");
    }
}

#[test]
fn no_indexing_when_caught_up() {
    let identity_last: i64 = 5000;
    let latest_block: u64 = 5000;
    let configs = default_chain_configs(true, false, "https://rpc.monad.xyz".to_string(), String::new());
    let chain = &configs[0];

    assert!(chain_caught_up(chain, identity_last, identity_last, identity_last, latest_block));
    assert!(contract_ranges(chain, ContractKind::Identity, identity_last, latest_block).is_empty());
}
