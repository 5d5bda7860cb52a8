use molt_marketplace::blocktimes::BlockTimes;
use molt_marketplace::events::{identity_writes, reputation_writes, ChainContext, IdentityEvent, LogMeta, ReputationEvent};
use molt_marketplace::store::{BackfillReport, Store};

fn ctx(chain_id: i32) -> ChainContext {
    ChainContext { chain_id, identity_address: "0x8004A169FB4a3325136EB29fA0ceB6D2e539a432".to_string() }
}

fn at(block: u64, ts: Option<u64>, tx: &str) -> LogMeta {
    LogMeta { block_number: block, block_timestamp: ts, tx_hash: tx.to_string(), log_index: 0 }
}

fn register(store: &mut Store, chain: i32, agent_id: u64, m: LogMeta) {
    let ev = IdentityEvent::Registered { agent_id, owner: "0xo".to_string(), uri: String::new() };
    store.apply_all(identity_writes(&ctx(chain), &m, ev).writes);
}

#[test]
fn missing_block_times_are_listed_once_and_filled() {
    let mut store = Store::new();
    register(&mut store, 143, 1, at(10, None, "0xa"));
    register(&mut store, 143, 2, at(10, None, "0xb"));
    register(&mut store, 10143, 3, at(10, None, "0xc"));
    register(&mut store, 143, 4, at(11, Some(555), "0xd"));
    let revoke = ReputationEvent::FeedbackRevoked { agent_id: 1, client: "0xc".to_string(), feedback_index: 0 };
    store.apply_all(reputation_writes(&ctx(143), &at(12, None, "0xe"), revoke));

    let mut pairs = store.blocks_missing_timestamps();
    pairs.sort();
    assert_eq!(pairs, vec![(143, 10), (143, 12), (10143, 10)]);

    store.fill_block_timestamp(143, 10, 777);
    assert_eq!(store.agents[0].block_timestamp, Some(777));
    assert_eq!(store.agents[1].block_timestamp, Some(777));
    assert_eq!(store.agents[2].block_timestamp, None);
    assert_eq!(store.agents[3].block_timestamp, Some(555));
    let mut pairs = store.blocks_missing_timestamps();
    pairs.sort();
    assert_eq!(pairs, vec![(143, 12), (10143, 10)]);

    // A block that already has its time keeps it.
    store.fill_block_timestamp(143, 11, 999);
    assert_eq!(store.agents[3].block_timestamp, Some(555));
}

#[test]
fn backfill_report_counts() {
    let mut report = BackfillReport::new();
    report.record(true);
    report.record(true);
    report.record(false);
    assert_eq!(report, BackfillReport { filled: 2, failed: 1 });
    let mut full = BackfillReport { filled: u64::MAX, failed: 0 };
    full.record(true);
    assert_eq!(full.filled, u64::MAX);
}

#[test]
fn block_times_are_cached() {
    let mut times = BlockTimes::new();
    assert_eq!(times.get(10), None);
    times.insert(10, 1_700_000_000);
    assert_eq!(times.get(10), Some(1_700_000_000));
    times.insert(10, 1_700_000_001);
    assert_eq!(times.get(10), Some(1_700_000_001));
    assert_eq!(times.get(11), None);
}

#[test]
fn cursors_are_upserted_per_chain_and_contract() {
    let mut store = Store::new();
    let identity = "0x8004A169FB4a3325136EB29fA0ceB6D2e539a432".to_string();
    assert_eq!(store.get_cursor(143, &identity), None);
    store.set_cursor(143, identity.clone(), 1099, Some("IdentityRegistry".to_string()));
    store.set_cursor(10143, identity.clone(), 5, None);
    assert_eq!(store.get_cursor(143, &identity), Some(1099));
    store.set_cursor(143, identity.clone(), 2099, None);
    assert_eq!(store.get_cursor(143, &identity), Some(2099));
    assert_eq!(store.get_cursor(10143, &identity), Some(5));
    assert_eq!(store.cursors.len(), 2);
    assert_eq!(store.cursors[0].label.as_deref(), Some("IdentityRegistry"));
}
