//! Query parameters of the read API: defaults, clamping and offsets.

use vstd::prelude::*;
use crate::text::equals_text;

verus! {

/// Smallest page number; pages are numbered from one.
pub const FIRST_PAGE: i64 = 1;

/// Page size used when a list query names none.
pub const DEFAULT_LIMIT: i64 = 20;

/// Page size used by the leaderboard when the query names none.
pub const DEFAULT_LEADERBOARD_LIMIT: i64 = 50;

/// Largest page size any list query may ask for.
pub const MAX_LIMIT: i64 = 100;

/// The page a query asks for: the given page when it is at least one, else one.
pub open spec fn page_of(page: Option<i64>) -> int {
    match page {
        Some(p) => if p >= 1 { p as int } else { 1 },
        None => 1,
    }
}

/// The page size a query asks for: the given size (or `default`) clamped to `1..=100`.
pub open spec fn limit_of(limit: Option<i64>, default: int) -> int {
    let l = match limit {
        Some(l) => l as int,
        None => default,
    };
    if l < 1 {
        1
    } else if l > 100 {
        100
    } else {
        l
    }
}

/// Number of rows skipped before the requested page.
pub open spec fn offset_of(page: Option<i64>, limit: Option<i64>) -> int {
    (page_of(page) - 1) * limit_of(limit, 20)
}

/// Whether the offset of a page fits the signed 64-bit range the store uses.
pub open spec fn offset_fits(page: Option<i64>, limit: Option<i64>) -> bool {
    offset_of(page, limit) <= i64::MAX
}

/// The text of an optional string parameter, or `default` when it is absent.
pub open spec fn text_or(s: Option<String>, default: Seq<char>) -> Seq<char> {
    match s {
        Some(t) => t@,
        None => default,
    }
}

fn page_value(page: Option<i64>) -> (r: i64)
    ensures
        r == page_of(page),
{
    match page {
        Some(p) => if p >= FIRST_PAGE { p } else { FIRST_PAGE },
        None => FIRST_PAGE,
    }
}

fn limit_value(limit: Option<i64>, default: i64) -> (r: i64)
    requires
        1 <= default <= 100,
    ensures
        r == limit_of(limit, default as int),
        1 <= r <= 100,
{
    let l = match limit {
        Some(l) => l,
        None => default,
    };
    if l < 1 {
        1
    } else if l > MAX_LIMIT {
        MAX_LIMIT
    } else {
        l
    }
}

fn offset_value(page: Option<i64>, limit: Option<i64>) -> (r: i64)
    requires
        offset_fits(page, limit),
    ensures
        r == offset_of(page, limit),
{
    let p = page_value(page);
    let l = limit_value(limit, DEFAULT_LIMIT);
    assert(0 <= (p - 1) * l) by (nonlinear_arith)
        requires
            p >= 1,
            l >= 1,
    ;
    (p - 1) * l
}

fn text_value<'a>(s: &'a Option<String>, default: &'a str) -> (r: &'a str)
    ensures
        r@ == text_or(*s, default@),
{
    match s {
        Some(t) => t.as_str(),
        None => default,
    }
}

/// Plain page/limit pagination.
#[derive(Debug)]
pub struct PaginationParams {
    pub page: Option<i64>,
    pub limit: Option<i64>,
}

impl PaginationParams {
    pub fn page(&self) -> (r: i64)
        ensures
            r == page_of(self.page),
    {
        page_value(self.page)
    }

    pub fn limit(&self) -> (r: i64)
        ensures
            r == limit_of(self.limit, 20),
    {
        limit_value(self.limit, DEFAULT_LIMIT)
    }

    pub fn offset(&self) -> (r: i64)
        requires
            offset_fits(self.page, self.limit),
        ensures
            r == offset_of(self.page, self.limit),
    {
        offset_value(self.page, self.limit)
    }
}

/// Filters, sort key and pagination of the agent list.
#[derive(Debug)]
pub struct AgentListParams {
    pub chain_id: Option<i32>,
    pub search: Option<String>,
    pub category: Option<String>,
    pub sort: Option<String>,
    pub page: Option<i64>,
    pub limit: Option<i64>,
}

impl AgentListParams {
    pub fn page(&self) -> (r: i64)
        ensures
            r == page_of(self.page),
    {
        page_value(self.page)
    }

    pub fn limit(&self) -> (r: i64)
        ensures
            r == limit_of(self.limit, 20),
    {
        limit_value(self.limit, DEFAULT_LIMIT)
    }

    pub fn offset(&self) -> (r: i64)
        requires
            offset_fits(self.page, self.limit),
        ensures
            r == offset_of(self.page, self.limit),
    {
        offset_value(self.page, self.limit)
    }

    /// The sort key; `recent` when none is given.
    pub fn sort(&self) -> (r: &str)
        ensures
            r@ == text_or(self.sort, "recent"@),
    {
        text_value(&self.sort, "recent")
    }
}

/// Time range of a reputation history query.
#[derive(Debug)]
pub struct ReputationParams {
    pub range: Option<String>,
}

impl ReputationParams {
    /// The range; `30d` when none is given.
    pub fn range(&self) -> (r: &str)
        ensures
            r@ == text_or(self.range, "30d"@),
    {
        text_value(&self.range, "30d")
    }
}

/// Event-type filter and pagination of an activity feed.
#[derive(Debug)]
pub struct ActivityParams {
    pub event_type: Option<String>,
    pub page: Option<i64>,
    pub limit: Option<i64>,
}

impl ActivityParams {
    pub fn page(&self) -> (r: i64)
        ensures
            r == page_of(self.page),
    {
        page_value(self.page)
    }

    pub fn limit(&self) -> (r: i64)
        ensures
            r == limit_of(self.limit, 20),
    {
        limit_value(self.limit, DEFAULT_LIMIT)
    }

    pub fn offset(&self) -> (r: i64)
        requires
            offset_fits(self.page, self.limit),
        ensures
            r == offset_of(self.page, self.limit),
    {
        offset_value(self.page, self.limit)
    }
}

/// Filters and size of the reputation leaderboard.
#[derive(Debug)]
pub struct LeaderboardParams {
    pub chain_id: Option<i32>,
    pub category: Option<String>,
    pub limit: Option<i64>,
}

impl LeaderboardParams {
    pub fn limit(&self) -> (r: i64)
        ensures
            r == limit_of(self.limit, 50),
    {
        limit_value(self.limit, DEFAULT_LEADERBOARD_LIMIT)
    }
}

/// Filters, sort key and pagination of marketplace listings.
#[derive(Debug)]
pub struct MarketplaceListParams {
    pub chain_id: Option<i32>,
    pub nft_contract: Option<String>,
    pub seller: Option<String>,
    pub status: Option<String>,
    pub sort: Option<String>,
    pub page: Option<i64>,
    pub limit: Option<i64>,
}

impl MarketplaceListParams {
    pub fn page(&self) -> (r: i64)
        ensures
            r == page_of(self.page),
    {
        page_value(self.page)
    }

    pub fn limit(&self) -> (r: i64)
        ensures
            r == limit_of(self.limit, 20),
    {
        limit_value(self.limit, DEFAULT_LIMIT)
    }

    pub fn offset(&self) -> (r: i64)
        requires
            offset_fits(self.page, self.limit),
        ensures
            r == offset_of(self.page, self.limit),
    {
        offset_value(self.page, self.limit)
    }

    /// The status filter; `Active` when none is given.
    pub fn status(&self) -> (r: &str)
        ensures
            r@ == text_or(self.status, "Active"@),
    {
        text_value(&self.status, "Active")
    }

    /// The sort key; `recent` when none is given.
    pub fn sort(&self) -> (r: &str)
        ensures
            r@ == text_or(self.sort, "recent"@),
    {
        text_value(&self.sort, "recent")
    }
}

/// Filters and pagination of token offers.
#[derive(Debug)]
pub struct MarketplaceOfferParams {
    pub chain_id: Option<i32>,
    pub nft_contract: Option<String>,
    pub token_id: Option<String>,
    pub offerer: Option<String>,
    pub status: Option<String>,
    pub page: Option<i64>,
    pub limit: Option<i64>,
}

impl MarketplaceOfferParams {
    pub fn page(&self) -> (r: i64)
        ensures
            r == page_of(self.page),
    {
        page_value(self.page)
    }

    pub fn limit(&self) -> (r: i64)
        ensures
            r == limit_of(self.limit, 20),
    {
        limit_value(self.limit, DEFAULT_LIMIT)
    }

    pub fn offset(&self) -> (r: i64)
        requires
            offset_fits(self.page, self.limit),
        ensures
            r == offset_of(self.page, self.limit),
    {
        offset_value(self.page, self.limit)
    }
}

/// Filters and pagination of collection-wide offers.
#[derive(Debug)]
pub struct MarketplaceCollectionOfferParams {
    pub chain_id: Option<i32>,
    pub nft_contract: Option<String>,
    pub offerer: Option<String>,
    pub status: Option<String>,
    pub page: Option<i64>,
    pub limit: Option<i64>,
}

impl MarketplaceCollectionOfferParams {
    pub fn page(&self) -> (r: i64)
        ensures
            r == page_of(self.page),
    {
        page_value(self.page)
    }

    pub fn limit(&self) -> (r: i64)
        ensures
            r == limit_of(self.limit, 20),
    {
        limit_value(self.limit, DEFAULT_LIMIT)
    }

    pub fn offset(&self) -> (r: i64)
        requires
            offset_fits(self.page, self.limit),
        ensures
            r == offset_of(self.page, self.limit),
    {
        offset_value(self.page, self.limit)
    }
}

/// Filters, sort key and pagination of English auctions.
#[derive(Debug)]
pub struct MarketplaceAuctionParams {
    pub chain_id: Option<i32>,
    pub nft_contract: Option<String>,
    pub seller: Option<String>,
    pub status: Option<String>,
    pub sort: Option<String>,
    pub page: Option<i64>,
    pub limit: Option<i64>,
}

impl MarketplaceAuctionParams {
    pub fn page(&self) -> (r: i64)
        ensures
            r == page_of(self.page),
    {
        page_value(self.page)
    }

    pub fn limit(&self) -> (r: i64)
        ensures
            r == limit_of(self.limit, 20),
    {
        limit_value(self.limit, DEFAULT_LIMIT)
    }

    pub fn offset(&self) -> (r: i64)
        requires
            offset_fits(self.page, self.limit),
        ensures
            r == offset_of(self.page, self.limit),
    {
        offset_value(self.page, self.limit)
    }

    /// The sort key; `recent` when none is given.
    pub fn sort(&self) -> (r: &str)
        ensures
            r@ == text_or(self.sort, "recent"@),
    {
        text_value(&self.sort, "recent")
    }
}

/// Filters and pagination of bundle listings.
#[derive(Debug)]
pub struct MarketplaceBundleParams {
    pub chain_id: Option<i32>,
    pub seller: Option<String>,
    pub status: Option<String>,
    pub page: Option<i64>,
    pub limit: Option<i64>,
}

impl MarketplaceBundleParams {
    pub fn page(&self) -> (r: i64)
        ensures
            r == page_of(self.page),
    {
        page_value(self.page)
    }

    pub fn limit(&self) -> (r: i64)
        ensures
            r == limit_of(self.limit, 20),
    {
        limit_value(self.limit, DEFAULT_LIMIT)
    }

    pub fn offset(&self) -> (r: i64)
        requires
            offset_fits(self.page, self.limit),
        ensures
            r == offset_of(self.page, self.limit),
    {
        offset_value(self.page, self.limit)
    }
}

/// Chain filter of a user's marketplace portfolio.
#[derive(Debug)]
pub struct MarketplaceUserParams {
    pub chain_id: Option<i32>,
}

/// Body of every error answer of the read API.
#[derive(Debug)]
pub struct ErrorResponse {
    pub error: String,
    pub message: String,
    pub status: u16,
}

/// The ordering of the agent list for a sort key: by reputation, by name, or
/// most recent first for any other key.
pub open spec fn agent_order_text(sort: Seq<char>) -> Seq<char> {
    if sort == "score"@ {
        "reputation_score DESC NULLS LAST"@
    } else if sort == "name"@ {
        "a.name ASC NULLS LAST"@
    } else {
        "a.created_at DESC NULLS LAST"@
    }
}

/// The ordering of the listing list for a sort key: by price either way, or
/// newest first for any other key.
pub open spec fn listing_order_text(sort: Seq<char>) -> Seq<char> {
    if sort == "price_asc"@ {
        "l.price ASC"@
    } else if sort == "price_desc"@ {
        "l.price DESC"@
    } else {
        "l.block_number DESC"@
    }
}

/// The ordering of the auction list for a sort key: active auctions ending
/// first, highest bid first, or newest first for any other key.
pub open spec fn auction_order_text(sort: Seq<char>) -> Seq<char> {
    if sort == "ending_soon"@ {
        "CASE WHEN a.status = 'Active' THEN 0 ELSE 1 END ASC, a.end_time ASC"@
    } else if sort == "highest_bid"@ {
        "a.highest_bid DESC NULLS LAST"@
    } else {
        "a.block_number DESC"@
    }
}

/// The ORDER BY clause of the agent list; only these fixed clauses are ever used.
pub fn agent_order(sort: &str) -> (r: &'static str)
    ensures
        r@ == agent_order_text(sort@),
{
    if equals_text(sort, "score") {
        "reputation_score DESC NULLS LAST"
    } else if equals_text(sort, "name") {
        "a.name ASC NULLS LAST"
    } else {
        "a.created_at DESC NULLS LAST"
    }
}

/// The ORDER BY clause of the listing list; only these fixed clauses are ever used.
pub fn listing_order(sort: &str) -> (r: &'static str)
    ensures
        r@ == listing_order_text(sort@),
{
    if equals_text(sort, "price_asc") {
        "l.price ASC"
    } else if equals_text(sort, "price_desc") {
        "l.price DESC"
    } else {
        "l.block_number DESC"
    }
}

/// The ORDER BY clause of the auction list; only these fixed clauses are ever used.
pub fn auction_order(sort: &str) -> (r: &'static str)
    ensures
        r@ == auction_order_text(sort@),
{
    if equals_text(sort, "ending_soon") {
        "CASE WHEN a.status = 'Active' THEN 0 ELSE 1 END ASC, a.end_time ASC"
    } else if equals_text(sort, "highest_bid") {
        "a.highest_bid DESC NULLS LAST"
    } else {
        "a.block_number DESC"
    }
}

/// The number of days of history a reputation range asks for: 7, 30 or 90 for
/// `7d`, `30d` and `90d`; all history (`None`) for any other range.
pub open spec fn range_days_of(range: Seq<char>) -> Option<u32> {
    if range == "7d"@ {
        Some(7)
    } else if range == "30d"@ {
        Some(30)
    } else if range == "90d"@ {
        Some(90)
    } else {
        None
    }
}

pub fn range_days(range: &str) -> (r: Option<u32>)
    ensures
        r == range_days_of(range@),
{
    if equals_text(range, "7d") {
        Some(7)
    } else if equals_text(range, "30d") {
        Some(30)
    } else if equals_text(range, "90d") {
        Some(90)
    } else {
        None
    }
}

} // verus!
