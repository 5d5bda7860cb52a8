use molt_marketplace::cycle::{
    contract_label, contract_ranges, cursor_write, default_chain_configs, index_flag, is_valid_address, should_sleep,
    start_cursor, validate_chain_config, ChainConfig, ConfigError, ContractKind, DEFAULT_MAINNET_RPC, DEFAULT_TESTNET_RPC, MAINNET_IDENTITY,
    MAINNET_START_BLOCK, TESTNET_CHAIN_ID,
};
use molt_marketplace::schedule::{advance_cursor, applicable_outputs, plan_batches, BLOCK_BATCH_SIZE, PARALLEL_BATCHES};
use molt_marketplace::status::{status_is_terminal, status_name, transition, Status};

fn chain_with_marketplace() -> ChainConfig {
    ChainConfig {
        chain_id: 143,
        rpc_url: "https://rpc.example".to_string(),
        identity_address: MAINNET_IDENTITY.to_string(),
        reputation_address: "0x8004BAa17C55a88189AE136b182e5fdA19dE9b63".to_string(),
        marketplace_address: Some("0x1111111111111111111111111111111111111111".to_string()),
        start_block: 1000,
        marketplace_start_block: Some(5000),
    }
}

#[test]
fn plan_is_capped_at_parallel_batches() {
    let ranges = plan_batches(-1, 1_000_000, BLOCK_BATCH_SIZE, PARALLEL_BATCHES);
    assert_eq!(ranges.len() as u64, PARALLEL_BATCHES);
    assert_eq!(ranges[0].from, 0);
    assert_eq!(ranges[9].to, BLOCK_BATCH_SIZE * PARALLEL_BATCHES - 1);
}

#[test]
fn plan_is_empty_when_caught_up() {
    assert!(plan_batches(500, 500, 100, 10).is_empty());
    assert!(plan_batches(500, 100, 100, 10).is_empty());
}

#[test]
fn plan_with_no_batches_allowed_is_empty() {
    assert!(plan_batches(0, 100, 10, 0).is_empty());
}

#[test]
fn plan_at_the_largest_tip() {
    let tip = i64::MAX as u64;
    let ranges = plan_batches(tip as i64 - 5, tip, 100, 10);
    assert_eq!(ranges.len(), 1);
    assert_eq!((ranges[0].from, ranges[0].to), (tip - 4, tip));
}

#[test]
fn cursor_never_moves_back_over_cycles() {
    // Cycles against tips 350, 350 (second batch fails), 900.
    let mut cursor: i64 = 99;
    let mut seen = vec![cursor];
    let cycles: Vec<(u64, Vec<bool>)> = vec![(350, vec![true, false, true]), (350, vec![true, true]), (900, vec![false])];
    for (tip, outcomes) in cycles {
        let ranges = plan_batches(cursor, tip, 100, 10);
        let outcomes: Vec<bool> = outcomes.into_iter().take(ranges.len()).collect();
        let mut padded = outcomes.clone();
        while padded.len() < ranges.len() {
            padded.push(true);
        }
        if let Some(c) = advance_cursor(&ranges, &padded) {
            cursor = c as i64;
        }
        seen.push(cursor);
    }
    assert_eq!(seen, vec![99, 199, 350, 350]);
    assert!(seen.windows(2).all(|w| w[0] <= w[1]));
}

#[test]
fn successful_cycle_reaches_tip_applying_each_block_once() {
    let last: i64 = 1234;
    let tip: u64 = 1234 + 750;
    let ranges = plan_batches(last, tip, 100, 10);
    let outcomes = vec![true; ranges.len()];
    assert_eq!(advance_cursor(&ranges, &outcomes), Some(tip));
    let mut counts = vec![0u32; (tip as i64 - last) as usize];
    for r in &ranges {
        for b in r.from..=r.to {
            counts[(b as i64 - last - 1) as usize] += 1;
        }
    }
    assert!(counts.iter().all(|&c| c == 1));
}

#[test]
fn successful_cycles_move_by_full_cycles_until_tip() {
    let tip: u64 = 2_345;
    let mut cursor: i64 = -1;
    let mut seen = Vec::new();
    while cursor < tip as i64 {
        let ranges = plan_batches(cursor, tip, 100, 10);
        cursor = advance_cursor(&ranges, &vec![true; ranges.len()]).unwrap() as i64;
        seen.push(cursor);
    }
    assert_eq!(seen, vec![999, 1999, 2345]);
}

#[test]
fn failed_third_of_five_batches_stops_after_second() {
    let ranges = plan_batches(999, 1499, 100, 10);
    assert_eq!(ranges.len(), 5);
    let outcomes = vec![true, true, false, true, true];
    let cursor = advance_cursor(&ranges, &outcomes).unwrap();
    assert_eq!(cursor, ranges[1].to);
    assert_eq!(cursor, 1199);
    let next = plan_batches(cursor as i64, 1499, 100, 10);
    assert_eq!(next[0].from, ranges[2].from);
    assert_eq!(next[0].from, 1200);
}

#[test]
fn failed_first_batch_keeps_cursor() {
    let ranges = plan_batches(10, 500, 100, 10);
    let outcomes = vec![false, true, true, true, true];
    assert_eq!(advance_cursor(&ranges, &outcomes), None);
}

#[test]
fn terminal_status_never_changes() {
    let terminal = [Status::Sold, Status::Accepted, Status::Cancelled, Status::ReserveNotMet, Status::Ended];
    let all = [Status::Active, Status::Sold, Status::Accepted, Status::Cancelled, Status::ReserveNotMet, Status::Ended];
    for s in terminal {
        assert!(status_is_terminal(s));
        for t in all {
            assert_eq!(transition(s, t), s);
        }
    }
    assert_eq!(transition(Status::Active, Status::Sold), Status::Sold);
    assert!(!status_is_terminal(Status::Active));
}

#[test]
fn status_names() {
    assert_eq!(status_name(Status::Active), "Active");
    assert_eq!(status_name(Status::ReserveNotMet), "ReserveNotMet");
    assert_eq!(status_name(Status::Ended), "Ended");
}

#[test]
fn start_cursor_uses_stored_or_block_before_start() {
    let c = chain_with_marketplace();
    assert_eq!(start_cursor(&c, ContractKind::Identity, Some(42)), 42);
    assert_eq!(start_cursor(&c, ContractKind::Identity, None), 999);
    assert_eq!(start_cursor(&c, ContractKind::Marketplace, None), 4999);
    let mut d = chain_with_marketplace();
    d.start_block = 0;
    assert_eq!(start_cursor(&d, ContractKind::Reputation, None), -1);
}

#[test]
fn marketplace_without_address_runs_nothing() {
    let configs = default_chain_configs(true, true, DEFAULT_MAINNET_RPC.to_string(), DEFAULT_TESTNET_RPC.to_string());
    assert!(contract_ranges(&configs[0], ContractKind::Marketplace, 0, 1000).is_empty());
    assert_eq!(contract_ranges(&configs[0], ContractKind::Reputation, 0, 1000).len(), 10);
}

#[test]
fn cursor_write_carries_label() {
    let ranges = plan_batches(0, 250, 100, 10);
    let w = cursor_write(ContractKind::Reputation, &ranges, &vec![true, true, false]);
    assert_eq!(w, Some((200, "ReputationRegistry")));
    assert_eq!(cursor_write(ContractKind::Identity, &ranges, &vec![false, true, true]), None);
    assert_eq!(contract_label(ContractKind::Marketplace), "MoltMarketplace");
    assert_eq!(contract_label(ContractKind::Identity), "IdentityRegistry");
}

#[test]
fn sleep_only_when_every_chain_caught_up() {
    assert!(should_sleep(&vec![Some(true), Some(true)]));
    assert!(!should_sleep(&vec![Some(true), Some(false)]));
    assert!(!should_sleep(&vec![Some(true), None]));
    assert!(!should_sleep(&vec![None]));
    assert!(should_sleep(&vec![]));
}

#[test]
fn index_flags_default_on() {
    assert!(index_flag(None));
    assert!(index_flag(Some("true")));
    assert!(index_flag(Some("FALSE")));
    assert!(!index_flag(Some("false")));
}

#[test]
fn default_configs_follow_flags() {
    let both = default_chain_configs(true, true, "https://a".to_string(), "https://b".to_string());
    assert_eq!(both.len(), 2);
    assert_eq!(both[0].start_block, MAINNET_START_BLOCK);
    assert_eq!(both[1].chain_id, TESTNET_CHAIN_ID);
    assert_eq!(both[1].rpc_url, "https://b");
    let testnet_only = default_chain_configs(false, true, "https://a".to_string(), "https://b".to_string());
    assert_eq!(testnet_only.len(), 1);
    assert_eq!(testnet_only[0].chain_id, TESTNET_CHAIN_ID);
    assert!(default_chain_configs(false, false, String::new(), String::new()).is_empty());
    assert!(DEFAULT_MAINNET_RPC.starts_with("https://"));
    assert!(DEFAULT_TESTNET_RPC.starts_with("https://"));
}

#[test]
fn address_validation() {
    assert!(is_valid_address(MAINNET_IDENTITY));
    assert!(!is_valid_address("0x8004A169FB4a3325136EB29fA0ceB6D2e539a43"));
    assert!(!is_valid_address("0x8004A169FB4a3325136EB29fA0ceB6D2e539a43g"));
    assert!(!is_valid_address("1x8004A169FB4a3325136EB29fA0ceB6D2e539a432"));
}

#[test]
fn ranges_after_a_failure_are_not_applied() {
    // Ranges 1 and 2 fetched, range 3 failed, ranges 4 and 5 fetched.
    let outputs = vec![Some(vec!["w1"]), Some(vec!["w2a", "w2b"]), None, Some(vec!["w4"]), Some(vec!["w5"])];
    let kept = applicable_outputs(outputs);
    assert_eq!(kept, vec![vec!["w1"], vec!["w2a", "w2b"]]);
    assert!(applicable_outputs(vec![None, Some(1)]).is_empty());
    assert_eq!(applicable_outputs(vec![Some(1), Some(2)]), vec![1, 2]);
    assert!(applicable_outputs(Vec::<Option<u8>>::new()).is_empty());
}

#[test]
fn chain_configs_are_validated() {
    assert_eq!(validate_chain_config(&chain_with_marketplace()), Ok(()));
    let mut bad_address = chain_with_marketplace();
    bad_address.marketplace_address = Some("0x123".to_string());
    assert_eq!(validate_chain_config(&bad_address), Err(ConfigError::InvalidAddress));
    let mut bad_start = chain_with_marketplace();
    bad_start.marketplace_start_block = Some(u64::MAX);
    assert_eq!(validate_chain_config(&bad_start), Err(ConfigError::StartBlockOutOfRange));
    let mut both = chain_with_marketplace();
    both.identity_address = "nope".to_string();
    both.start_block = u64::MAX;
    assert_eq!(validate_chain_config(&both), Err(ConfigError::InvalidAddress));
}
