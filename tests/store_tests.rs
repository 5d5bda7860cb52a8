use molt_marketplace::events::{
    addresses_match, agent_of_token, config_sync_write, identity_writes, marketplace_writes, reputation_writes,
    BundleItems, ChainContext, IdentityEvent, LogMeta, MarketEvent, NftRef, ReputationEvent,
};
use molt_marketplace::metadata::{resolve_metadata_uri, AgentEndpointMeta, AgentUriMetadata, MetadataSource};
use molt_marketplace::status::Status;
use molt_marketplace::store::{ActivityData, EntityKind, RecordBody, Store, Terms, Write};

const IDENTITY: &str = "0x8004A169FB4a3325136EB29fA0ceB6D2e539a432";

fn ctx() -> ChainContext {
    ChainContext { chain_id: 143, identity_address: IDENTITY.to_string() }
}

fn meta(block: u64, tx: &str, log_index: u64) -> LogMeta {
    LogMeta { block_number: block, block_timestamp: Some(1_700_000_000 + block), tx_hash: tx.to_string(), log_index }
}

fn registered(agent_id: u64, owner: &str, uri: &str) -> IdentityEvent {
    IdentityEvent::Registered { agent_id, owner: owner.to_string(), uri: uri.to_string() }
}

fn listed(listing_id: u64, nft: &str, token: &str, price: &str) -> MarketEvent {
    MarketEvent::Listed {
        listing_id,
        seller: "0xseller".to_string(),
        nft_contract: nft.to_string(),
        token_id: token.to_string(),
        payment_token: "0x0000000000000000000000000000000000000000".to_string(),
        price: price.to_string(),
        expiry: 0,
    }
}

fn activity_count(store: &Store) -> usize {
    store.records.iter().filter(|r| matches!(r.body, RecordBody::Activity { .. })).count()
}

#[test]
fn registration_creates_agent_and_metadata_fills_it() {
    let mut store = Store::new();
    let d = identity_writes(&ctx(), &meta(10, "0xt1", 0), registered(7, "0xAA", "ipfs://Qm123"));
    let job = d.job.as_ref().unwrap();
    assert_eq!((job.agent_id, job.chain_id, job.uri.as_str()), (7, 143, "ipfs://Qm123"));
    store.apply_all(d.writes);

    assert_eq!(store.agents.len(), 1);
    let a = &store.agents[0];
    assert_eq!((a.agent_id, a.chain_id), (7, 143));
    assert_eq!(a.owner.as_deref(), Some("0xAA"));
    assert!(a.active);
    assert_eq!(a.uri.as_deref(), Some("ipfs://Qm123"));
    assert_eq!(activity_count(&store), 1);

    match resolve_metadata_uri(&job.uri) {
        Ok(MetadataSource::Fetch(url)) => assert_eq!(url, "https://ipfs.io/ipfs/Qm123"),
        other => panic!("unexpected {:?}", other),
    }
    let doc = AgentUriMetadata {
        name: Some("Seven".to_string()),
        description: None,
        image: Some("https://img/7.png".to_string()),
        categories: None,
        x402_support: Some(true),
        endpoints: Some(vec![AgentEndpointMeta { url: "https://api/7".to_string(), protocol: None }]),
        capabilities: None,
    };
    store.apply(Write::ApplyAgentMetadata { agent_id: 7, chain_id: 143, meta: doc });
    let a = &store.agents[0];
    assert_eq!(a.name.as_deref(), Some("Seven"));
    assert_eq!(a.image.as_deref(), Some("https://img/7.png"));
    assert_eq!(a.x402_support, Some(true));
    assert_eq!(a.endpoints.as_ref().unwrap()[0].url, "https://api/7");
    assert_eq!(a.owner.as_deref(), Some("0xAA"));
}

#[test]
fn uri_update_keeps_owner_and_names() {
    let mut store = Store::new();
    store.apply_all(identity_writes(&ctx(), &meta(10, "0xt1", 0), registered(7, "0xAA", "ipfs://a")).writes);
    let d = identity_writes(
        &ctx(),
        &meta(11, "0xt2", 3),
        IdentityEvent::UriUpdated { agent_id: 7, new_uri: "ipfs://b".to_string(), updated_by: "0xAA".to_string() },
    );
    assert_eq!(d.job.as_ref().unwrap().uri, "ipfs://b");
    store.apply_all(d.writes);
    let a = &store.agents[0];
    assert_eq!(a.owner.as_deref(), Some("0xAA"));
    assert_eq!(a.uri.as_deref(), Some("ipfs://b"));
    assert_eq!(a.block_number, Some(11));
    assert_eq!(activity_count(&store), 2);
}

#[test]
fn empty_uri_asks_for_no_metadata() {
    let d = identity_writes(&ctx(), &meta(10, "0xt1", 0), registered(8, "0xAB", ""));
    assert!(d.job.is_none());
}

#[test]
fn metadata_set_merges_one_key() {
    let mut store = Store::new();
    let set = |k: &str, v: &str, log: u64| {
        identity_writes(
            &ctx(),
            &meta(12, "0xt3", log),
            IdentityEvent::MetadataSet { agent_id: 7, key: k.to_string(), value: v.to_string() },
        )
        .writes
    };
    // Unknown agent: the field is not stored, the activity entry is.
    store.apply_all(set("k", "v0", 0));
    assert!(store.fields.is_empty());
    store.apply_all(identity_writes(&ctx(), &meta(10, "0xt1", 0), registered(7, "0xAA", "")).writes);
    store.apply_all(set("k", "v1", 1));
    store.apply_all(set("other", "x", 2));
    store.apply_all(set("k", "v2", 3));
    assert_eq!(store.fields.len(), 2);
    assert_eq!(store.fields[0].value, "v2");
    assert_eq!(store.fields[1].value, "x");
}

#[test]
fn replaying_a_range_adds_no_duplicate_activity() {
    let batch = || {
        let mut ws = identity_writes(&ctx(), &meta(10, "0xt1", 0), registered(7, "0xAA", "ipfs://a")).writes;
        ws.extend(
            reputation_writes(
                &ctx(),
                &meta(11, "0xt2", 1),
                ReputationEvent::NewFeedback {
                    agent_id: 7,
                    client: "0xc".to_string(),
                    feedback_index: 1,
                    value: 12345,
                    value_decimals: 2,
                    tag1: "quality".to_string(),
                    tag2: String::new(),
                    endpoint: String::new(),
                    feedback_uri: String::new(),
                    feedback_hash: "0xh".to_string(),
                },
            ),
        );
        ws.extend(marketplace_writes(&ctx(), &meta(12, "0xt3", 2), listed(9, IDENTITY, "7", "100.00"), None, None));
        ws
    };
    let mut store = Store::new();
    store.apply_all(batch());
    let records = store.records.len();
    let first_agent_block = store.agents[0].block_number;
    assert_eq!(activity_count(&store), 3);
    store.apply_all(batch());
    assert_eq!(store.records.len(), records);
    assert_eq!(activity_count(&store), 3);
    assert_eq!(store.agents.len(), 1);
    assert_eq!(store.feedbacks.len(), 1);
    assert_eq!(store.entities.len(), 1);
    assert_eq!(store.agents[0].block_number, first_agent_block);
}

#[test]
fn feedback_value_is_stored_exactly_and_revoked() {
    let mut store = Store::new();
    let ws = reputation_writes(
        &ctx(),
        &meta(11, "0xt2", 1),
        ReputationEvent::NewFeedback {
            agent_id: 7,
            client: "0xc".to_string(),
            feedback_index: 4,
            value: 12345,
            value_decimals: 2,
            tag1: String::new(),
            tag2: "t2".to_string(),
            endpoint: String::new(),
            feedback_uri: "ipfs://f".to_string(),
            feedback_hash: "0xh".to_string(),
        },
    );
    match &ws[1] {
        Write::AppendRecord(r) => match &r.body {
            RecordBody::Activity { data: ActivityData::NewFeedback { raw_value, value_decimals, .. }, .. } => {
                assert_eq!(molt_marketplace::decimal::format_exact(*raw_value, *value_decimals), "123.45");
            },
            other => panic!("unexpected {:?}", other),
        },
        other => panic!("unexpected {:?}", other),
    }
    store.apply_all(ws);
    let f = &store.feedbacks[0];
    assert_eq!((f.value, f.value_decimals), (12345, 2));
    assert!(f.tag1.is_none());
    assert_eq!(f.tag2.as_deref(), Some("t2"));
    assert!(!f.revoked);

    // A revocation of an unknown index changes nothing; of a known one, marks it.
    let revoke = |index: u64| {
        reputation_writes(
            &ctx(),
            &meta(13, "0xt9", index),
            ReputationEvent::FeedbackRevoked { agent_id: 7, client: "0xc".to_string(), feedback_index: index },
        )
    };
    store.apply_all(revoke(99));
    assert!(!store.feedbacks[0].revoked);
    store.apply_all(revoke(4));
    assert!(store.feedbacks[0].revoked);
}

#[test]
fn response_is_stored_once() {
    let mut store = Store::new();
    let ev = || ReputationEvent::ResponseAppended {
        agent_id: 7,
        client: "0xc".to_string(),
        feedback_index: 4,
        responder: "0xr".to_string(),
        response_uri: "ipfs://r".to_string(),
        response_hash: "0xrh".to_string(),
    };
    store.apply_all(reputation_writes(&ctx(), &meta(14, "0xt4", 0), ev()));
    store.apply_all(reputation_writes(&ctx(), &meta(14, "0xt4", 0), ev()));
    assert_eq!(store.records.len(), 2);
}

#[test]
fn listing_sold_to_buyer_shows_in_agent_feed() {
    let mut store = Store::new();
    let lower = IDENTITY.to_lowercase();
    store.apply_all(marketplace_writes(&ctx(), &meta(20, "0xl", 0), listed(9, &lower, "9", "100.00"), None, None));
    assert_eq!(store.entities[0].status, Status::Active);

    let listing = NftRef { nft_contract: lower.clone(), token_id: "9".to_string() };
    let bought = MarketEvent::Bought { listing_id: 9, buyer: "0xBB".to_string(), price: "100.00".to_string() };
    let ws = marketplace_writes(&ctx(), &meta(21, "0xb", 0), bought, Some(listing), None);
    assert_eq!(ws.len(), 2);
    store.apply_all(ws);

    let l = &store.entities[0];
    assert_eq!(l.key.kind, EntityKind::Listing);
    assert_eq!(l.status, Status::Sold);
    assert_eq!(l.counterparty.as_deref(), Some("0xBB"));
    assert_eq!(l.settled_amount.as_deref(), Some("100.00"));
    match &l.terms {
        Terms::Listing { price, .. } => assert_eq!(price, "100.00"),
        other => panic!("unexpected {:?}", other),
    }
    let feed: Vec<&str> = store
        .records
        .iter()
        .filter_map(|r| match &r.body {
            RecordBody::Activity { agent_id: 9, data } => Some(data.event_type()),
            _ => None,
        })
        .collect();
    assert_eq!(feed, vec!["marketplace:Listed", "marketplace:Bought"]);
}

#[test]
fn other_nfts_stay_out_of_agent_feeds() {
    let ws = marketplace_writes(
        &ctx(),
        &meta(20, "0xl", 0),
        listed(9, "0x2222222222222222222222222222222222222222", "9", "1"),
        None,
        None,
    );
    assert_eq!(ws.len(), 1);
    let ws = marketplace_writes(&ctx(), &meta(20, "0xl", 0), listed(9, IDENTITY, "not-a-number", "1"), None, None);
    assert_eq!(ws.len(), 1);
}

#[test]
fn closed_entities_stay_closed() {
    let mut store = Store::new();
    store.apply_all(marketplace_writes(&ctx(), &meta(20, "0xl", 0), listed(9, "0xnft", "1", "5"), None, None));
    store.apply_all(marketplace_writes(&ctx(), &meta(21, "0xc", 0), MarketEvent::ListingCancelled { listing_id: 9 }, None, None));
    let bought = MarketEvent::Bought { listing_id: 9, buyer: "0xBB".to_string(), price: "5".to_string() };
    store.apply_all(marketplace_writes(&ctx(), &meta(22, "0xb", 0), bought, None, None));
    // Seeing the creation again does not reopen it either.
    store.apply_all(marketplace_writes(&ctx(), &meta(20, "0xl", 0), listed(9, "0xnft", "1", "5"), None, None));
    assert_eq!(store.entities[0].status, Status::Cancelled);
    assert!(store.entities[0].counterparty.is_none());
}

#[test]
fn closing_an_unknown_entity_is_a_no_op() {
    let mut store = Store::new();
    let settled = MarketEvent::AuctionSettled { auction_id: 3, winner: "0xw".to_string(), amount: "10".to_string() };
    store.apply_all(marketplace_writes(&ctx(), &meta(1, "0xs", 0), settled, None, None));
    assert!(store.entities.is_empty());
}

#[test]
fn auction_lifecycle() {
    let mut store = Store::new();
    let created = MarketEvent::AuctionCreated {
        auction_id: 3,
        seller: "0xs".to_string(),
        nft_contract: IDENTITY.to_string(),
        token_id: "7".to_string(),
        payment_token: "0x0".to_string(),
        start_price: "1".to_string(),
        reserve_price: "5".to_string(),
        buy_now_price: "20".to_string(),
        start_time: 100,
        end_time: 200,
    };
    store.apply_all(marketplace_writes(&ctx(), &meta(1, "0xa", 0), created, None, None));
    let bid = MarketEvent::BidPlaced { auction_id: 3, bidder: "0xb1".to_string(), amount: "6".to_string() };
    store.apply_all(marketplace_writes(&ctx(), &meta(2, "0xbid", 0), bid, None, None));
    let ext = MarketEvent::AuctionExtended { auction_id: 3, new_end_time: 260 };
    store.apply_all(marketplace_writes(&ctx(), &meta(3, "0xe", 0), ext, None, None));
    let settle = MarketEvent::AuctionSettled { auction_id: 3, winner: "0xb1".to_string(), amount: "6".to_string() };
    store.apply_all(marketplace_writes(&ctx(), &meta(4, "0xs2", 0), settle, None, None));
    let a = &store.entities[0];
    assert_eq!(a.status, Status::Ended);
    assert_eq!(a.highest_bid.as_deref(), Some("6"));
    assert_eq!(a.highest_bidder.as_deref(), Some("0xb1"));
    assert_eq!(a.counterparty.as_deref(), Some("0xb1"));
    match &a.terms {
        Terms::Auction { end_time, .. } => assert_eq!(*end_time, 260),
        other => panic!("unexpected {:?}", other),
    }
    let bids = store.records.iter().filter(|r| matches!(r.body, RecordBody::Bid { .. })).count();
    assert_eq!(bids, 1);
}

#[test]
fn reserve_not_met_and_collection_offer_fill() {
    let mut store = Store::new();
    let offer = MarketEvent::CollectionOfferMade {
        offer_id: 5,
        offerer: "0xo".to_string(),
        nft_contract: "0xnft".to_string(),
        payment_token: "0x0".to_string(),
        amount: "3".to_string(),
        expiry: 99,
    };
    store.apply_all(marketplace_writes(&ctx(), &meta(1, "0xa", 0), offer, None, None));
    let accept = MarketEvent::CollectionOfferAccepted { offer_id: 5, seller: "0xs".to_string(), token_id: "77".to_string() };
    store.apply_all(marketplace_writes(&ctx(), &meta(2, "0xb", 0), accept, None, None));
    let o = &store.entities[0];
    assert_eq!(o.status, Status::Accepted);
    assert_eq!(o.filled_token_id.as_deref(), Some("77"));
    assert_eq!(o.counterparty.as_deref(), Some("0xs"));
}

#[test]
fn bundle_items_degrade_to_empty() {
    let ev = || MarketEvent::BundleListed {
        bundle_id: 2,
        seller: "0xs".to_string(),
        item_count: 2,
        payment_token: "0x0".to_string(),
        price: "8".to_string(),
        expiry: 0,
    };
    let without = marketplace_writes(&ctx(), &meta(1, "0xa", 0), ev(), None, None);
    match &without[0] {
        Write::UpsertEntity(c) => match &c.terms {
            Terms::Bundle { nft_contracts, token_ids, item_count, .. } => {
                assert!(nft_contracts.is_empty() && token_ids.is_empty());
                assert_eq!(*item_count, 2);
            },
            other => panic!("unexpected {:?}", other),
        },
        other => panic!("unexpected {:?}", other),
    }
    let items = BundleItems { nft_contracts: vec!["0xa".to_string(), "0xb".to_string()], token_ids: vec!["1".to_string(), "2".to_string()] };
    let with = marketplace_writes(&ctx(), &meta(1, "0xa", 0), ev(), None, Some(items));
    match &with[0] {
        Write::UpsertEntity(c) => match &c.terms {
            Terms::Bundle { nft_contracts, token_ids, .. } => {
                assert_eq!(nft_contracts, &vec!["0xa".to_string(), "0xb".to_string()]);
                assert_eq!(token_ids, &vec!["1".to_string(), "2".to_string()]);
            },
            other => panic!("unexpected {:?}", other),
        },
        other => panic!("unexpected {:?}", other),
    }
}

#[test]
fn fee_settings_merge() {
    let mut store = Store::new();
    store.apply_all(marketplace_writes(&ctx(), &meta(1, "0xa", 0), MarketEvent::PlatformFeeUpdated { new_fee: 250 }, None, None));
    let rec = MarketEvent::FeeRecipientUpdated { new_recipient: "0xfee".to_string() };
    store.apply_all(marketplace_writes(&ctx(), &meta(2, "0xb", 0), rec, None, None));
    assert_eq!(store.configs.len(), 1);
    assert_eq!(store.configs[0].fee_bps, Some(250));
    assert_eq!(store.configs[0].fee_recipient.as_deref(), Some("0xfee"));
    store.apply_all(marketplace_writes(&ctx(), &meta(3, "0xc", 0), MarketEvent::PaymentTokenAdded { token: "0xusd".to_string() }, None, None));
    store.apply_all(marketplace_writes(&ctx(), &meta(4, "0xd", 0), MarketEvent::PaymentTokenRemoved { token: "0xusd".to_string() }, None, None));
    assert_eq!(store.tokens.len(), 1);
    assert!(!store.tokens[0].allowed);
    assert_eq!(store.tokens[0].block_number, 4);
    assert!(config_sync_write(143, None, None).is_none());
    assert!(matches!(config_sync_write(143, Some(100), None), Some(Write::SetMarketConfig { fee_bps: Some(100), .. })));
}

#[test]
fn address_and_token_helpers() {
    assert!(addresses_match("0xABcd", "0xabCD"));
    assert!(!addresses_match("0xabcd", "0xabce"));
    assert!(!addresses_match("0xabc", "0xabcd"));
    assert_eq!(agent_of_token("9"), Some(9));
    assert_eq!(agent_of_token("9223372036854775807"), Some(i64::MAX as u64));
    assert_eq!(agent_of_token("9223372036854775808"), None);
    assert_eq!(agent_of_token("18446744073709551615"), None);
    assert_eq!(agent_of_token("-1"), None);
}
