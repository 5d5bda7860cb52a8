use molt_marketplace::decimal::{format_exact, parse_integer};
use molt_marketplace::ids::{parse_composite_id, parse_id, IdError};
use molt_marketplace::metadata::{resolve_metadata_uri, strip_prefix, MetadataSource, ResolveError};
use molt_marketplace::params::{
    agent_order, auction_order, listing_order, range_days, MarketplaceAuctionParams, MarketplaceListParams, PaginationParams,
};
use molt_marketplace::scores::scale_priority;

#[test]
fn exact_value_from_mantissa_and_decimals() {
    assert_eq!(format_exact(12345, 2), "123.45");
    assert_eq!(format_exact(-5, 3), "-0.005");
    assert_eq!(format_exact(7, 0), "7");
    assert_eq!(format_exact(0, 2), "0.00");
    assert_eq!(format_exact(100, 2), "1.00");
    assert_eq!(format_exact(i128::MIN, 0), "-170141183460469231731687303715884105728");
    assert_eq!(format_exact(i128::MAX, 38), "1.70141183460469231731687303715884105727");
}

#[test]
fn exact_value_round_trips_through_text() {
    for (m, d) in [(12345i128, 2u8), (-987654321, 5), (1, 18), (0, 0), (42, 1)] {
        let text = format_exact(m, d);
        let digits: String = text.chars().filter(|c| *c != '.').collect();
        let frac = text.split('.').nth(1).map(|f| f.len()).unwrap_or(0);
        assert_eq!(frac, d as usize);
        assert_eq!(digits.parse::<i128>().unwrap(), m);
    }
}

#[test]
fn integer_text() {
    let i64_range = (i64::MIN as i128, i64::MAX as i128);
    assert_eq!(parse_integer("42", i64_range.0, i64_range.1), Some(42));
    assert_eq!(parse_integer("+7", i64_range.0, i64_range.1), Some(7));
    assert_eq!(parse_integer("-5", i64_range.0, i64_range.1), Some(-5));
    assert_eq!(parse_integer("9223372036854775807", i64_range.0, i64_range.1), Some(i64::MAX as i128));
    assert_eq!(parse_integer("9223372036854775808", i64_range.0, i64_range.1), None);
    assert_eq!(parse_integer("-9223372036854775808", i64_range.0, i64_range.1), Some(i64::MIN as i128));
    assert_eq!(parse_integer("", i64_range.0, i64_range.1), None);
    assert_eq!(parse_integer("-", i64_range.0, i64_range.1), None);
    assert_eq!(parse_integer("1-extra", i64_range.0, i64_range.1), None);
    assert_eq!(parse_integer("99999999999999999999999", i64_range.0, i64_range.1), None);
}

#[test]
fn composite_id_errors() {
    assert_eq!(parse_composite_id("143"), Err(IdError::Malformed));
    assert_eq!(parse_composite_id("x-1"), Err(IdError::InvalidChainId));
    assert_eq!(parse_composite_id("3000000000-1"), Err(IdError::InvalidChainId));
    assert_eq!(parse_composite_id("143-y"), Err(IdError::InvalidEntityId));
    assert_eq!(parse_composite_id("143--5"), Ok((143, -5)));
}

#[test]
fn entity_id_messages() {
    let e = parse_id("143").unwrap_err();
    assert_eq!(e.message, "Invalid id format '143'. Expected 'chainId-entityId'.");
    assert_eq!(e.error, "Bad Request");
    assert_eq!(e.status, 400);
    assert_eq!(parse_id("143-q").unwrap_err().message, "Invalid entity_id in '143-q'");
    assert_eq!(parse_id("q-1").unwrap_err().message, "Invalid chain_id in 'q-1'");
    assert_eq!(parse_id("10143-9").unwrap(), (10143, 9));
}

#[test]
fn marketplace_params_defaults() {
    let l = MarketplaceListParams {
        chain_id: None,
        nft_contract: None,
        seller: None,
        status: None,
        sort: None,
        page: Some(2),
        limit: Some(25),
    };
    assert_eq!(l.status(), "Active");
    assert_eq!(l.sort(), "recent");
    assert_eq!(l.offset(), 25);
    let a = MarketplaceAuctionParams {
        chain_id: None,
        nft_contract: None,
        seller: None,
        status: None,
        sort: Some("ending_soon".to_string()),
        page: None,
        limit: None,
    };
    assert_eq!(a.sort(), "ending_soon");
    let big = PaginationParams { page: Some(1_000_000), limit: Some(100) };
    assert_eq!(big.offset(), 99_999_900);
}

#[test]
fn ipfs_uri_goes_through_gateway() {
    match resolve_metadata_uri("ipfs://Qm123") {
        Ok(MetadataSource::Fetch(url)) => assert_eq!(url, "https://ipfs.io/ipfs/Qm123"),
        other => panic!("unexpected {:?}", other),
    }
}

#[test]
fn http_uri_is_fetched_as_is() {
    match resolve_metadata_uri("https://agent.example.com/meta.json") {
        Ok(MetadataSource::Fetch(url)) => assert_eq!(url, "https://agent.example.com/meta.json"),
        other => panic!("unexpected {:?}", other),
    }
}

#[test]
fn base64_data_uri_is_decoded() {
    // {"name":"A"}
    match resolve_metadata_uri("data:application/json;base64,eyJuYW1lIjoiQSJ9") {
        Ok(MetadataSource::InlineBytes(b)) => assert_eq!(b, b"{\"name\":\"A\"}".to_vec()),
        other => panic!("unexpected {:?}", other),
    }
    match resolve_metadata_uri("data:application/json; base64,  eyJuYW1lIjoiQSJ9 \n") {
        Ok(MetadataSource::InlineBytes(b)) => assert_eq!(b, b"{\"name\":\"A\"}".to_vec()),
        other => panic!("unexpected {:?}", other),
    }
}

#[test]
fn percent_data_uri_is_decoded() {
    match resolve_metadata_uri("data:application/json,%7B%22name%22%3A%22B%22%7D") {
        Ok(MetadataSource::InlineText(t)) => assert_eq!(t, "{\"name\":\"B\"}"),
        other => panic!("unexpected {:?}", other),
    }
    match resolve_metadata_uri("data:application/json,{}") {
        Ok(MetadataSource::InlineText(t)) => assert_eq!(t, "{}"),
        other => panic!("unexpected {:?}", other),
    }
}

#[test]
fn unreadable_data_uris_are_rejected() {
    assert_eq!(resolve_metadata_uri("data:text/plain,hello").unwrap_err(), ResolveError::UnsupportedDataUri);
    assert_eq!(resolve_metadata_uri("data:application/json;base64,@@@").unwrap_err(), ResolveError::InvalidBase64);
    assert_eq!(resolve_metadata_uri("data:application/json,%FF%FE").unwrap_err(), ResolveError::InvalidPercentEncoding);
}

#[test]
fn prefix_stripping() {
    assert_eq!(strip_prefix("ipfs://x", "ipfs://"), Some("x"));
    assert_eq!(strip_prefix("ipf", "ipfs://"), None);
    assert_eq!(strip_prefix("https://x", "ipfs://"), None);
}

#[test]
fn score_scales_in_listing_order() {
    assert_eq!(scale_priority("percentage"), 0);
    assert_eq!(scale_priority("elo"), 1);
    assert_eq!(scale_priority("boolean"), 2);
    assert_eq!(scale_priority("raw"), 3);
    assert_eq!(scale_priority(""), 3);
}

#[test]
fn sort_keys_map_to_fixed_orderings() {
    assert_eq!(agent_order("score"), "reputation_score DESC NULLS LAST");
    assert_eq!(agent_order("name"), "a.name ASC NULLS LAST");
    assert_eq!(agent_order("recent"), "a.created_at DESC NULLS LAST");
    assert_eq!(agent_order("name; DROP TABLE agents"), "a.created_at DESC NULLS LAST");
    assert_eq!(listing_order("price_asc"), "l.price ASC");
    assert_eq!(listing_order("price_desc"), "l.price DESC");
    assert_eq!(listing_order(""), "l.block_number DESC");
    assert_eq!(auction_order("highest_bid"), "a.highest_bid DESC NULLS LAST");
    assert!(auction_order("ending_soon").starts_with("CASE WHEN"));
    assert_eq!(auction_order("x"), "a.block_number DESC");
}

#[test]
fn reputation_ranges_in_days() {
    assert_eq!(range_days("7d"), Some(7));
    assert_eq!(range_days("30d"), Some(30));
    assert_eq!(range_days("90d"), Some(90));
    assert_eq!(range_days("all"), None);
    assert_eq!(range_days("1y"), None);
}
