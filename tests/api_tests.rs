use molt_marketplace::ids::parse_agent_id;
use molt_marketplace::params::{
    ActivityParams, AgentListParams, LeaderboardParams, PaginationParams, ReputationParams,
};

fn paging(page: Option<i64>, limit: Option<i64>) -> PaginationParams {
    PaginationParams { page, limit }
}

#[test]
fn pagination_defaults_page_1_limit_20() {
    let params = paging(None, None);
    assert_eq!(params.page(), 1);
    assert_eq!(params.limit(), 20);
    assert_eq!(params.offset(), 0);
}

#[test]
fn pagination_clamps_limit_to_100() {
    let params = paging(None, Some(999));
    assert_eq!(params.limit(), 100);
}

#[test]
fn pagination_clamps_limit_minimum_to_1() {
    let params = paging(None, Some(-5));
    assert_eq!(params.limit(), 1);

    let params_zero = paging(None, Some(0));
    assert_eq!(params_zero.limit(), 1);
}

#[test]
fn pagination_page_cannot_be_zero_or_negative() {
    let params = paging(Some(0), None);
    assert_eq!(params.page(), 1);

    let params_neg = paging(Some(-3), None);
    assert_eq!(params_neg.page(), 1);
}

#[test]
fn pagination_offset_computed_correctly() {
    let params = paging(Some(3), Some(10));
    assert_eq!(params.offset(), 20);

    let params2 = paging(Some(1), Some(50));
    assert_eq!(params2.offset(), 0);
}

#[test]
fn agent_list_params_defaults() {
    let params = AgentListParams { chain_id: None, search: None, category: None, sort: None, page: None, limit: None };
    assert_eq!(params.page(), 1);
    assert_eq!(params.limit(), 20);
    assert_eq!(params.sort(), "recent");
    assert!(params.chain_id.is_none());
    assert!(params.search.is_none());
    assert!(params.category.is_none());
}

#[test]
fn agent_list_params_with_filters() {
    let params = AgentListParams {
        chain_id: Some(143),
        search: Some("defi bot".to_string()),
        category: Some("DeFi".to_string()),
        sort: Some("score".to_string()),
        page: Some(2),
        limit: Some(10),
    };
    assert_eq!(params.chain_id, Some(143));
    assert_eq!(params.search.as_deref(), Some("defi bot"));
    assert_eq!(params.category.as_deref(), Some("DeFi"));
    assert_eq!(params.sort(), "score");
    assert_eq!(params.page, Some(2));
    assert_eq!(params.limit, Some(10));
}

#[test]
fn reputation_params_default_range_is_30d() {
    let params = ReputationParams { range: None };
    assert_eq!(params.range(), "30d");
}

#[test]
fn reputation_params_custom_range() {
    let params = ReputationParams { range: Some("7d".to_string()) };
    assert_eq!(params.range(), "7d");

    let params_all = ReputationParams { range: Some("all".to_string()) };
    assert_eq!(params_all.range(), "all");
}

#[test]
fn leaderboard_params_default_limit_50() {
    let params = LeaderboardParams { chain_id: None, category: None, limit: None };
    assert_eq!(params.limit(), 50);
}

#[test]
fn leaderboard_params_clamp_limit() {
    let params = LeaderboardParams { chain_id: None, category: None, limit: Some(200) };
    assert_eq!(params.limit(), 100);
}

#[test]
fn activity_params_defaults() {
    let params = ActivityParams { event_type: None, page: None, limit: None };
    assert_eq!(params.page(), 1);
    assert_eq!(params.limit(), 20);
    assert_eq!(params.offset(), 0);
    assert!(params.event_type.is_none());
}

#[test]
fn valid_mainnet_agent_id() {
    let result = parse_agent_id("143-1");
    assert!(result.is_ok());
    let (chain_id, agent_id) = result.unwrap();
    assert_eq!(chain_id, 143);
    assert_eq!(agent_id, 1);
}

#[test]
fn valid_testnet_agent_id() {
    let result = parse_agent_id("10143-42");
    assert!(result.is_ok());
    let (chain_id, agent_id) = result.unwrap();
    assert_eq!(chain_id, 10143);
    assert_eq!(agent_id, 42);
}

#[test]
fn valid_large_agent_id() {
    let result = parse_agent_id("143-999999999");
    assert!(result.is_ok());
    let (chain_id, agent_id) = result.unwrap();
    assert_eq!(chain_id, 143);
    assert_eq!(agent_id, 999999999);
}

#[test]
fn missing_separator_returns_bad_request() {
    let result = parse_agent_id("143");
    assert!(result.is_err());
    let err = result.unwrap_err();
    assert_eq!(err.status, 400);
    assert!(err.message.contains("Invalid agent id format"));
}

#[test]
fn empty_string_returns_bad_request() {
    let result = parse_agent_id("");
    assert!(result.is_err());
    let err = result.unwrap_err();
    assert_eq!(err.status, 400);
}

#[test]
fn non_numeric_chain_id_returns_bad_request() {
    let result = parse_agent_id("abc-1");
    assert!(result.is_err());
    let err = result.unwrap_err();
    assert_eq!(err.status, 400);
    assert!(err.message.contains("Invalid chain_id"));
}

#[test]
fn non_numeric_agent_id_returns_bad_request() {
    let result = parse_agent_id("143-xyz");
    assert!(result.is_err());
    let err = result.unwrap_err();
    assert_eq!(err.status, 400);
    assert!(err.message.contains("Invalid agent_id"));
}

#[test]
fn multiple_dashes_takes_first_split() {
    let result = parse_agent_id("143-1-extra");
    assert!(result.is_err());
    let err = result.unwrap_err();
    assert_eq!(err.status, 400);
    assert!(err.message.contains("Invalid agent_id"));
}

#[test]
fn negative_chain_id_parses_as_valid_i32() {
    // The first `-` splits "-1-42" into "" and "1-42"; "" is not an integer.
    let result = parse_agent_id("-1-42");
    assert!(result.is_err());
}

#[test]
fn zero_agent_id_is_valid() {
    let result = parse_agent_id("143-0");
    assert!(result.is_ok());
    let (chain_id, agent_id) = result.unwrap();
    assert_eq!(chain_id, 143);
    assert_eq!(agent_id, 0);
}
