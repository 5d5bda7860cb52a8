//! The persistent store's write semantics, as an in-memory model: every write
//! is an upsert by natural key, an insert that is skipped when the key is
//! present, or a conditional update that is a no-op when the row is missing.

use vstd::prelude::*;
use crate::metadata::{AgentEndpointMeta, AgentUriMetadata};
use crate::schedule::{advanced_cursor, lemma_cycle_cursor_monotone, plan};
use crate::status::{is_terminal, next_status, transition, Status};

verus! {

/// A row type looked up by a natural key.
pub trait Keyed {
    type Key;

    spec fn has_key(&self, k: &Self::Key) -> bool;

    /// The row's own key.
    spec fn key(&self) -> Self::Key;

    /// A row has its own key; having another row's key is symmetric; rows that
    /// share a key have each other's key; rows with equal keys have the same keys.
    proof fn lemma_key(a: &Self, b: &Self, k: &Self::Key)
        ensures
            a.has_key(&a.key()),
            a.has_key(&b.key()) == b.has_key(&a.key()),
            b.has_key(k) ==> (a.has_key(&b.key()) == a.has_key(k)),
            a.key() == b.key() ==> (a.has_key(k) == b.has_key(k)),
    ;

    fn matches_key(&self, k: &Self::Key) -> (r: bool)
        ensures
            r == self.has_key(k),
    ;
}

/// Position of the first row with key `k`, if any.
pub open spec fn first_index<T: Keyed>(rows: Seq<T>, k: T::Key) -> Option<int> {
    if exists|i: int| 0 <= i < rows.len() && #[trigger] rows[i].has_key(&k) {
        Some(
            choose|i: int|
                0 <= i < rows.len() && #[trigger] rows[i].has_key(&k) && forall|j: int|
                    0 <= j < i ==> !(#[trigger] rows[j].has_key(&k)),
        )
    } else {
        None
    }
}

proof fn lemma_first_index<T: Keyed>(rows: Seq<T>, k: T::Key, i: int)
    requires
        0 <= i < rows.len(),
        rows[i].has_key(&k),
        forall|j: int| 0 <= j < i ==> !(#[trigger] rows[j].has_key(&k)),
    ensures
        first_index(rows, k) == Some(i),
{
    let c = choose|c: int|
        0 <= c < rows.len() && #[trigger] rows[c].has_key(&k) && forall|j: int|
            0 <= j < c ==> !(#[trigger] rows[j].has_key(&k));
    assert(0 <= c < rows.len() && rows[c].has_key(&k));
    if c < i {
        assert(!rows[c].has_key(&k));
    }
    if c > i {
        assert(!rows[i].has_key(&k));
    }
}

/// Finds the first row with key `k`.
pub fn find_first<T: Keyed>(rows: &Vec<T>, k: &T::Key) -> (r: Option<usize>)
    ensures
        r matches Some(i) ==> i < rows.len() && first_index(rows@, *k) == Some(i as int),
        r is None ==> first_index(rows@, *k) is None,
{
    let mut i: usize = 0;
    while i < rows.len()
        invariant
            i <= rows.len(),
            forall|j: int| 0 <= j < i ==> !(#[trigger] rows@[j].has_key(k)),
        decreases rows.len() - i,
    {
        if rows[i].matches_key(k) {
            proof {
                lemma_first_index(rows@, *k, i as int);
            }
            return Some(i);
        }
        i = i + 1;
    }
    None
}

/// The rows after inserting `row` under key `k`, unless a row with that key is present.
pub open spec fn insert_absent<T: Keyed>(rows: Seq<T>, k: T::Key, row: T) -> Seq<T> {
    match first_index(rows, k) {
        Some(_) => rows,
        None => rows.push(row),
    }
}

/// The rows after replacing the row with key `k` by `f` of it, if there is one.
pub open spec fn update_row<T: Keyed>(rows: Seq<T>, k: T::Key, f: spec_fn(T) -> T) -> Seq<T> {
    match first_index(rows, k) {
        Some(i) => rows.update(i, f(rows[i])),
        None => rows,
    }
}

/// The rows after an upsert: the row with key `k` becomes `f` of it, or `fresh`
/// is added when there is none.
pub open spec fn upsert_row<T: Keyed>(rows: Seq<T>, k: T::Key, f: spec_fn(T) -> T, fresh: T) -> Seq<T> {
    match first_index(rows, k) {
        Some(i) => rows.update(i, f(rows[i])),
        None => rows.push(fresh),
    }
}

fn insert_if_absent<T: Keyed>(rows: &mut Vec<T>, k: &T::Key, row: T)
    ensures
        final(rows)@ == insert_absent(old(rows)@, *k, row),
{
    if find_first(rows, k).is_none() {
        rows.push(row);
    }
}

/// Agents are keyed by agent id and chain.
#[derive(Clone, Copy, Debug, PartialEq, Eq, Structural)]
pub struct AgentKey {
    pub agent_id: u64,
    pub chain_id: i32,
}

/// One agent.
#[derive(Debug)]
pub struct AgentRow {
    pub agent_id: u64,
    pub chain_id: i32,
    pub owner: Option<String>,
    pub uri: Option<String>,
    pub name: Option<String>,
    pub description: Option<String>,
    pub image: Option<String>,
    pub categories: Option<Vec<String>>,
    pub x402_support: Option<bool>,
    pub endpoints: Option<Vec<AgentEndpointMeta>>,
    pub capabilities: Option<Vec<String>>,
    pub active: bool,
    pub block_number: Option<u64>,
    pub block_timestamp: Option<u64>,
    pub tx_hash: Option<String>,
}

impl Keyed for AgentRow {
    type Key = AgentKey;

    open spec fn key(&self) -> AgentKey {
        AgentKey { agent_id: self.agent_id, chain_id: self.chain_id }
    }

    proof fn lemma_key(a: &AgentRow, b: &AgentRow, k: &AgentKey) {
    }

    open spec fn has_key(&self, k: &AgentKey) -> bool {
        self.agent_id == k.agent_id && self.chain_id == k.chain_id
    }

    fn matches_key(&self, k: &AgentKey) -> (r: bool) {
        self.agent_id == k.agent_id && self.chain_id == k.chain_id
    }
}

/// What a registration or URI change writes to an agent. A missing or empty
/// owner keeps the stored owner; a missing URI or timestamp keeps the stored one.
#[derive(Debug)]
pub struct AgentUpsert {
    pub agent_id: u64,
    pub chain_id: i32,
    pub owner: Option<String>,
    pub uri: Option<String>,
    pub active: bool,
    pub block_number: u64,
    pub block_timestamp: Option<u64>,
    pub tx_hash: String,
}

pub open spec fn coalesce<T>(new: Option<T>, old: Option<T>) -> Option<T> {
    match new {
        Some(v) => Some(v),
        None => old,
    }
}

/// An agent row after an upsert. The owner is never replaced by an empty one,
/// and the descriptive fields only change when a new value arrives.
/// The owner after an upsert: a non-empty new owner, else the stored one.
pub open spec fn owner_after(new: Option<String>, old: Option<String>) -> Option<String> {
    match new {
        Some(o) => if o@.len() == 0 { old } else { Some(o) },
        None => old,
    }
}

pub open spec fn merge_agent(r: AgentRow, u: AgentUpsert) -> AgentRow {
    AgentRow {
        owner: owner_after(u.owner, r.owner),
        uri: coalesce(u.uri, r.uri),
        active: u.active,
        block_number: Some(u.block_number),
        block_timestamp: coalesce(u.block_timestamp, r.block_timestamp),
        tx_hash: Some(u.tx_hash),
        ..r
    }
}

/// The agent row an upsert creates.
pub open spec fn new_agent(u: AgentUpsert) -> AgentRow {
    AgentRow {
        agent_id: u.agent_id,
        chain_id: u.chain_id,
        owner: owner_after(u.owner, None),
        uri: u.uri,
        name: None,
        description: None,
        image: None,
        categories: None,
        x402_support: None,
        endpoints: None,
        capabilities: None,
        active: u.active,
        block_number: Some(u.block_number),
        block_timestamp: u.block_timestamp,
        tx_hash: Some(u.tx_hash),
    }
}

/// An agent row after its metadata document was read: every field the document
/// gives replaces the stored one; endpoints and capabilities are replaced as
/// the document has them.
pub open spec fn merge_metadata(r: AgentRow, m: AgentUriMetadata) -> AgentRow {
    AgentRow {
        name: coalesce(m.name, r.name),
        description: coalesce(m.description, r.description),
        image: coalesce(m.image, r.image),
        categories: coalesce(m.categories, r.categories),
        x402_support: coalesce(m.x402_support, r.x402_support),
        endpoints: m.endpoints,
        capabilities: m.capabilities,
        ..r
    }
}

/// A single key/value pair of an agent's on-chain metadata.
#[derive(Debug)]
pub struct AgentField {
    pub agent_id: u64,
    pub chain_id: i32,
    pub key: String,
    pub value: String,
}

/// Agent metadata fields are keyed by agent, chain and field name.
#[derive(Debug)]
pub struct FieldKey {
    pub agent_id: u64,
    pub chain_id: i32,
    pub key: String,
}

impl Keyed for AgentField {
    type Key = FieldKey;

    open spec fn key(&self) -> FieldKey {
        FieldKey { agent_id: self.agent_id, chain_id: self.chain_id, key: self.key }
    }

    proof fn lemma_key(a: &AgentField, b: &AgentField, k: &FieldKey) {
    }

    open spec fn has_key(&self, k: &FieldKey) -> bool {
        self.agent_id == k.agent_id && self.chain_id == k.chain_id && self.key@ == k.key@
    }

    fn matches_key(&self, k: &FieldKey) -> (r: bool) {
        self.agent_id == k.agent_id && self.chain_id == k.chain_id && self.key == k.key
    }
}

/// The kind of an event-keyed record.
#[derive(Clone, Copy, Debug, PartialEq, Eq, Structural)]
pub enum RecordKind {
    Activity,
    Response,
    Bid,
}

/// The snapshot of an event that an activity entry shows.
#[derive(Debug)]
pub enum ActivityData {
    Registered { owner: String, uri: String },
    UriUpdated { new_uri: String, updated_by: String },
    MetadataSet { key: String, value: String },
    /// The value is exact: `raw_value / 10^value_decimals`.
    NewFeedback {
        client: String,
        feedback_index: u64,
        raw_value: i128,
        value_decimals: u8,
        tag1: String,
        tag2: String,
        endpoint: String,
        feedback_uri: String,
    },
    FeedbackRevoked { client: String, feedback_index: u64 },
    ResponseAppended { client: String, feedback_index: u64, responder: String, response_uri: String, response_hash: String },
    Listed { listing_id: u64, seller: String, price: String, payment_token: String },
    Bought { listing_id: u64, buyer: String, price: String },
    OfferMade { offer_id: u64, offerer: String },
    AuctionCreated { auction_id: u64, seller: String },
    DutchAuctionCreated { auction_id: u64, seller: String },
}

/// The tag an activity entry is listed under.
pub open spec fn activity_tag(d: ActivityData) -> Seq<char> {
    match d {
        ActivityData::Registered { .. } => "Registered"@,
        ActivityData::UriUpdated { .. } => "URIUpdated"@,
        ActivityData::MetadataSet { .. } => "MetadataSet"@,
        ActivityData::NewFeedback { .. } => "NewFeedback"@,
        ActivityData::FeedbackRevoked { .. } => "FeedbackRevoked"@,
        ActivityData::ResponseAppended { .. } => "ResponseAppended"@,
        ActivityData::Listed { .. } => "marketplace:Listed"@,
        ActivityData::Bought { .. } => "marketplace:Bought"@,
        ActivityData::OfferMade { .. } => "marketplace:OfferMade"@,
        ActivityData::AuctionCreated { .. } => "marketplace:AuctionCreated"@,
        ActivityData::DutchAuctionCreated { .. } => "marketplace:DutchAuctionCreated"@,
    }
}

impl ActivityData {
    /// The tag of the entry: the event's name, prefixed with `marketplace:` for
    /// marketplace events shown in an agent's feed.
    pub fn event_type(&self) -> (r: &'static str)
        ensures
            r@ == activity_tag(*self),
    {
        match self {
            ActivityData::Registered { .. } => "Registered",
            ActivityData::UriUpdated { .. } => "URIUpdated",
            ActivityData::MetadataSet { .. } => "MetadataSet",
            ActivityData::NewFeedback { .. } => "NewFeedback",
            ActivityData::FeedbackRevoked { .. } => "FeedbackRevoked",
            ActivityData::ResponseAppended { .. } => "ResponseAppended",
            ActivityData::Listed { .. } => "marketplace:Listed",
            ActivityData::Bought { .. } => "marketplace:Bought",
            ActivityData::OfferMade { .. } => "marketplace:OfferMade",
            ActivityData::AuctionCreated { .. } => "marketplace:AuctionCreated",
            ActivityData::DutchAuctionCreated { .. } => "marketplace:DutchAuctionCreated",
        }
    }
}

/// What an event-keyed record holds.
#[derive(Debug)]
pub enum RecordBody {
    /// An entry of an agent's activity feed, with a snapshot of the event for display.
    Activity { agent_id: u64, data: ActivityData },
    /// A response appended to a feedback.
    Response { agent_id: u64, feedback_index: u64, responder: String, response_uri: String, response_hash: String },
    /// A bid on an English auction.
    Bid { auction_id: u64, bidder: String, amount: String },
}

pub open spec fn body_kind(b: RecordBody) -> RecordKind {
    match b {
        RecordBody::Activity { .. } => RecordKind::Activity,
        RecordBody::Response { .. } => RecordKind::Response,
        RecordBody::Bid { .. } => RecordKind::Bid,
    }
}

/// A row written once per event, keyed by kind, chain, transaction and log index.
#[derive(Debug)]
pub struct Record {
    pub chain_id: i32,
    pub tx_hash: String,
    pub log_index: u64,
    pub block_number: u64,
    pub block_timestamp: Option<u64>,
    pub body: RecordBody,
}

#[derive(Debug)]
pub struct RecordKey {
    pub kind: RecordKind,
    pub chain_id: i32,
    pub tx_hash: String,
    pub log_index: u64,
}

impl Keyed for Record {
    type Key = RecordKey;

    open spec fn key(&self) -> RecordKey {
        record_key(*self)
    }

    proof fn lemma_key(a: &Record, b: &Record, k: &RecordKey) {
    }

    open spec fn has_key(&self, k: &RecordKey) -> bool {
        &&& body_kind(self.body) == k.kind
        &&& self.chain_id == k.chain_id
        &&& self.tx_hash@ == k.tx_hash@
        &&& self.log_index == k.log_index
    }

    fn matches_key(&self, k: &RecordKey) -> (r: bool) {
        let kind = match &self.body {
            RecordBody::Activity { .. } => RecordKind::Activity,
            RecordBody::Response { .. } => RecordKind::Response,
            RecordBody::Bid { .. } => RecordKind::Bid,
        };
        kind == k.kind && self.chain_id == k.chain_id && self.log_index == k.log_index && self.tx_hash == k.tx_hash
    }
}

/// The key of a record.
pub open spec fn record_key(r: Record) -> RecordKey {
    RecordKey { kind: body_kind(r.body), chain_id: r.chain_id, tx_hash: r.tx_hash, log_index: r.log_index }
}

fn key_of_record(r: &Record) -> (k: RecordKey)
    ensures
        k == record_key(*r),
{
    let kind = match &r.body {
        RecordBody::Activity { .. } => RecordKind::Activity,
        RecordBody::Response { .. } => RecordKind::Response,
        RecordBody::Bid { .. } => RecordKind::Bid,
    };
    RecordKey { kind, chain_id: r.chain_id, tx_hash: r.tx_hash.clone(), log_index: r.log_index }
}

/// One feedback; the value is kept as an exact integer and its decimal places.
#[derive(Debug)]
pub struct FeedbackRow {
    pub agent_id: u64,
    pub chain_id: i32,
    pub feedback_index: u64,
    pub client: String,
    pub value: i128,
    pub value_decimals: u8,
    pub tag1: Option<String>,
    pub tag2: Option<String>,
    pub endpoint: Option<String>,
    pub feedback_uri: Option<String>,
    pub feedback_hash: String,
    pub revoked: bool,
    pub block_number: u64,
    pub block_timestamp: Option<u64>,
    pub tx_hash: String,
}

#[derive(Clone, Copy, Debug, PartialEq, Eq, Structural)]
pub struct FeedbackKey {
    pub agent_id: u64,
    pub chain_id: i32,
    pub feedback_index: u64,
}

impl Keyed for FeedbackRow {
    type Key = FeedbackKey;

    open spec fn key(&self) -> FeedbackKey {
        FeedbackKey { agent_id: self.agent_id, chain_id: self.chain_id, feedback_index: self.feedback_index }
    }

    proof fn lemma_key(a: &FeedbackRow, b: &FeedbackRow, k: &FeedbackKey) {
    }

    open spec fn has_key(&self, k: &FeedbackKey) -> bool {
        self.agent_id == k.agent_id && self.chain_id == k.chain_id && self.feedback_index == k.feedback_index
    }

    fn matches_key(&self, k: &FeedbackKey) -> (r: bool) {
        self.agent_id == k.agent_id && self.chain_id == k.chain_id && self.feedback_index == k.feedback_index
    }
}

pub open spec fn revoked(r: FeedbackRow) -> FeedbackRow {
    FeedbackRow { revoked: true, ..r }
}

/// The kinds of marketplace entities.
#[derive(Clone, Copy, Debug, PartialEq, Eq, Structural)]
pub enum EntityKind {
    Listing,
    Offer,
    CollectionOffer,
    Auction,
    DutchAuction,
    Bundle,
}

/// Marketplace entities are keyed by kind, chain and on-chain id.
#[derive(Clone, Copy, Debug, PartialEq, Eq, Structural)]
pub struct EntityKey {
    pub kind: EntityKind,
    pub chain_id: i32,
    pub id: u64,
}

/// The terms an entity was created with. Amounts and token ids are decimal
/// digit strings, kept exactly as the chain gave them.
#[derive(Debug)]
pub enum Terms {
    Listing { seller: String, nft_contract: String, token_id: String, payment_token: String, price: String, expiry: u64 },
    Offer { offerer: String, nft_contract: String, token_id: String, payment_token: String, amount: String, expiry: u64 },
    CollectionOffer { offerer: String, nft_contract: String, payment_token: String, amount: String, expiry: u64 },
    Auction {
        seller: String,
        nft_contract: String,
        token_id: String,
        payment_token: String,
        start_price: String,
        reserve_price: String,
        buy_now_price: String,
        start_time: u64,
        end_time: u64,
    },
    DutchAuction {
        seller: String,
        nft_contract: String,
        token_id: String,
        payment_token: String,
        start_price: String,
        end_price: String,
        start_time: u64,
        end_time: u64,
    },
    Bundle { seller: String, nft_contracts: Vec<String>, token_ids: Vec<String>, payment_token: String, price: String, expiry: u64, item_count: u32 },
}

/// One marketplace entity and its status.
#[derive(Debug)]
pub struct EntityRow {
    pub key: EntityKey,
    pub terms: Terms,
    pub status: Status,
    /// Buyer, accepting seller or winner, once the entity closed that way.
    pub counterparty: Option<String>,
    /// Price paid or amount settled.
    pub settled_amount: Option<String>,
    /// Token that filled a collection offer.
    pub filled_token_id: Option<String>,
    pub highest_bid: Option<String>,
    pub highest_bidder: Option<String>,
    pub block_number: u64,
    pub block_timestamp: Option<u64>,
    pub tx_hash: String,
}

impl Keyed for EntityRow {
    type Key = EntityKey;

    open spec fn key(&self) -> EntityKey {
        self.key
    }

    proof fn lemma_key(a: &EntityRow, b: &EntityRow, k: &EntityKey) {
    }

    open spec fn has_key(&self, k: &EntityKey) -> bool {
        self.key == *k
    }

    fn matches_key(&self, k: &EntityKey) -> (r: bool) {
        self.key == *k
    }
}

/// What a creation event writes to an entity.
#[derive(Debug)]
pub struct EntityCreate {
    pub key: EntityKey,
    pub terms: Terms,
    pub block_number: u64,
    pub block_timestamp: Option<u64>,
    pub tx_hash: String,
}

/// What a closing event asks of an entity.
#[derive(Debug)]
pub struct Closing {
    pub target: Status,
    pub counterparty: Option<String>,
    pub amount: Option<String>,
    pub token_id: Option<String>,
}

/// An entity row after its creation event was seen (again): the terms and
/// provenance are replaced, status and settlement are kept.
pub open spec fn recreate(r: EntityRow, c: EntityCreate) -> EntityRow {
    EntityRow { terms: c.terms, block_number: c.block_number, block_timestamp: c.block_timestamp, tx_hash: c.tx_hash, ..r }
}

/// The entity row a creation event adds: active, with nothing settled.
pub open spec fn new_entity(c: EntityCreate) -> EntityRow {
    EntityRow {
        key: c.key,
        terms: c.terms,
        status: Status::Active,
        counterparty: None,
        settled_amount: None,
        filled_token_id: None,
        highest_bid: None,
        highest_bidder: None,
        block_number: c.block_number,
        block_timestamp: c.block_timestamp,
        tx_hash: c.tx_hash,
    }
}

/// An entity row after a closing event: it closes only when active; a closed
/// entity keeps its status and settlement.
pub open spec fn close(r: EntityRow, c: Closing) -> EntityRow {
    if r.status == Status::Active {
        EntityRow {
            status: next_status(r.status, c.target),
            counterparty: coalesce(c.counterparty, r.counterparty),
            settled_amount: coalesce(c.amount, r.settled_amount),
            filled_token_id: coalesce(c.token_id, r.filled_token_id),
            ..r
        }
    } else {
        r
    }
}

pub open spec fn with_price(r: EntityRow, price: String) -> EntityRow {
    match r.terms {
        Terms::Listing { seller, nft_contract, token_id, payment_token, price: _, expiry } => EntityRow {
            terms: Terms::Listing { seller, nft_contract, token_id, payment_token, price, expiry },
            ..r
        },
        _ => r,
    }
}

pub open spec fn with_end_time(r: EntityRow, end: u64) -> EntityRow {
    match r.terms {
        Terms::Auction { seller, nft_contract, token_id, payment_token, start_price, reserve_price, buy_now_price, start_time, end_time: _ } =>
            EntityRow {
            terms: Terms::Auction {
                seller,
                nft_contract,
                token_id,
                payment_token,
                start_price,
                reserve_price,
                buy_now_price,
                start_time,
                end_time: end,
            },
            ..r
        },
        _ => r,
    }
}

pub open spec fn with_bid(r: EntityRow, bidder: String, amount: String) -> EntityRow {
    EntityRow { highest_bid: Some(amount), highest_bidder: Some(bidder), ..r }
}

/// Fee settings of a chain's marketplace.
#[derive(Debug)]
pub struct MarketConfig {
    pub chain_id: i32,
    pub fee_bps: Option<u32>,
    pub fee_recipient: Option<String>,
}

impl Keyed for MarketConfig {
    type Key = i32;

    open spec fn key(&self) -> i32 {
        self.chain_id
    }

    proof fn lemma_key(a: &MarketConfig, b: &MarketConfig, k: &i32) {
    }

    open spec fn has_key(&self, k: &i32) -> bool {
        self.chain_id == *k
    }

    fn matches_key(&self, k: &i32) -> (r: bool) {
        self.chain_id == *k
    }
}

pub open spec fn merge_config(r: MarketConfig, fee_bps: Option<u32>, fee_recipient: Option<String>) -> MarketConfig {
    MarketConfig { fee_bps: coalesce(fee_bps, r.fee_bps), fee_recipient: coalesce(fee_recipient, r.fee_recipient), ..r }
}

/// Whether a token is accepted as payment.
#[derive(Debug)]
pub struct PaymentToken {
    pub chain_id: i32,
    pub token: String,
    pub allowed: bool,
    pub block_number: u64,
}

#[derive(Debug)]
pub struct TokenKey {
    pub chain_id: i32,
    pub token: String,
}

impl Keyed for PaymentToken {
    type Key = TokenKey;

    open spec fn key(&self) -> TokenKey {
        TokenKey { chain_id: self.chain_id, token: self.token }
    }

    proof fn lemma_key(a: &PaymentToken, b: &PaymentToken, k: &TokenKey) {
    }

    open spec fn has_key(&self, k: &TokenKey) -> bool {
        self.chain_id == k.chain_id && self.token@ == k.token@
    }

    fn matches_key(&self, k: &TokenKey) -> (r: bool) {
        self.chain_id == k.chain_id && self.token == k.token
    }
}

/// The last block of a contract that was fully indexed, with the contract's name.
#[derive(Debug)]
pub struct CursorRow {
    pub chain_id: i32,
    pub contract: String,
    pub last_block: i64,
    pub label: Option<String>,
}

/// Cursors are keyed by chain and contract address.
#[derive(Debug)]
pub struct CursorKey {
    pub chain_id: i32,
    pub contract: String,
}

impl Keyed for CursorRow {
    type Key = CursorKey;

    open spec fn key(&self) -> CursorKey {
        CursorKey { chain_id: self.chain_id, contract: self.contract }
    }

    proof fn lemma_key(a: &CursorRow, b: &CursorRow, k: &CursorKey) {
    }

    open spec fn has_key(&self, k: &CursorKey) -> bool {
        self.chain_id == k.chain_id && self.contract@ == k.contract@
    }

    fn matches_key(&self, k: &CursorKey) -> (r: bool) {
        self.chain_id == k.chain_id && self.contract == k.contract
    }
}

/// The stored cursors after one is set: its block replaced, its name kept
/// unless a new one is given.
pub open spec fn cursor_set(rows: Seq<CursorRow>, k: CursorKey, block: i64, label: Option<String>) -> Seq<CursorRow> {
    upsert_row(
        rows,
        k,
        |r: CursorRow| CursorRow { last_block: block, label: coalesce(label, r.label), ..r },
        CursorRow { chain_id: k.chain_id, contract: k.contract, last_block: block, label },
    )
}

/// The stored cursor of a contract, if any.
pub open spec fn cursor_get(rows: Seq<CursorRow>, k: CursorKey) -> Option<i64> {
    match first_index(rows, k) {
        Some(i) => Some(rows[i].last_block),
        None => None,
    }
}

impl Store {
    /// The cursor stored for a contract on a chain.
    pub fn get_cursor(&self, chain_id: i32, contract: &String) -> (r: Option<i64>)
        ensures
            r == cursor_get(self@.cursors, CursorKey { chain_id, contract: *contract }),
    {
        let k = CursorKey { chain_id, contract: contract.clone() };
        match find_first(&self.cursors, &k) {
            Some(i) => Some(self.cursors[i].last_block),
            None => None,
        }
    }

    /// Stores a contract's cursor; nothing else changes.
    pub fn set_cursor(&mut self, chain_id: i32, contract: String, block: i64, label: Option<String>)
        ensures
            final(self)@ == (StoreState {
                cursors: cursor_set(old(self)@.cursors, CursorKey { chain_id, contract }, block, label),
                ..old(self)@
            }),
            well_formed(old(self)@) ==> well_formed(final(self)@),
    {
        proof {
            let k = CursorKey { chain_id, contract };
            if well_formed(self@) {
                lemma_unique_upsert(
                    self@.cursors,
                    k,
                    |r: CursorRow| CursorRow { last_block: block, label: coalesce(label, r.label), ..r },
                    CursorRow { chain_id: k.chain_id, contract: k.contract, last_block: block, label },
                );
            }
        }
        let ghost g = label;
        let k = CursorKey { chain_id, contract: contract.clone() };
        match find_first(&self.cursors, &k) {
            Some(i) => {
                let row = &mut self.cursors[i];
                row.last_block = block;
                match label {
                    Some(l) => row.label = Some(l),
                    None => {},
                }
                assert(self.cursors@ =~= old(self).cursors@.update(
                    i as int,
                    CursorRow { last_block: block, label: coalesce(g, old(self).cursors@[i as int].label), ..old(self).cursors@[i as int] },
                ));
            },
            None => {
                self.cursors.push(CursorRow { chain_id, contract, last_block: block, label });
            },
        }
    }
}

/// Cursor monotonicity in the store: when a cycle starts from the stored cursor
/// and stores the cursor it advanced to, the stored cursor does not decrease,
/// and reading it back gives the advanced cursor.
pub proof fn lemma_stored_cursor_monotone(
    rows: Seq<CursorRow>,
    k: CursorKey,
    label: Option<String>,
    tip: int,
    size: int,
    count: nat,
    outcomes: Seq<bool>,
)
    requires
        cursor_get(rows, k) is Some,
        size >= 1,
        tip <= i64::MAX,
        outcomes.len() == plan(cursor_get(rows, k)->Some_0 as int, tip, size, count).len(),
    ensures
        ({
            let c = cursor_get(rows, k)->Some_0 as int;
            let next = advanced_cursor(c, plan(c, tip, size, count), outcomes);
            &&& c <= next <= i64::MAX
            &&& cursor_get(cursor_set(rows, k, next as i64, label), k) == Some(next as i64)
        }),
{
    let c = cursor_get(rows, k)->Some_0 as int;
    lemma_cycle_cursor_monotone(c, tip, size, count, outcomes);
    let next = advanced_cursor(c, plan(c, tip, size, count), outcomes);
    lemma_first_index_props(rows, k);
    let i = first_index(rows, k)->Some_0;
    let after = cursor_set(rows, k, next as i64, label);
    assert forall|j: int| 0 <= j < i implies !(#[trigger] after[j].has_key(&k)) by {
        assert(after[j] == rows[j]);
    }
    lemma_first_index(after, k, i);
}

/// No two rows share a key.
pub open spec fn keys_unique<T: Keyed>(rows: Seq<T>) -> bool {
    forall|i: int, j: int|
        0 <= i < rows.len() && 0 <= j < rows.len() && #[trigger] rows[i].has_key(&rows[j].key()) ==> i == j
}

proof fn lemma_unique_update<T: Keyed>(rows: Seq<T>, i: int, v: T)
    requires
        keys_unique(rows),
        0 <= i < rows.len(),
        v.key() == rows[i].key(),
    ensures
        keys_unique(rows.update(i, v)),
{
    let after = rows.update(i, v);
    assert forall|a: int, b: int|
        0 <= a < after.len() && 0 <= b < after.len() && #[trigger] after[a].has_key(&after[b].key()) implies a == b by {
        T::lemma_key(&v, &rows[i], &rows[b].key());
        if a == i && b != i {
            assert(after[b] == rows[b]);
            assert(rows[i].has_key(&rows[b].key()));
        } else if b == i && a != i {
            assert(after[a] == rows[a]);
            assert(rows[a].has_key(&rows[i].key()));
        } else if a != i && b != i {
            assert(after[a] == rows[a] && after[b] == rows[b]);
        }
    }
}

proof fn lemma_unique_push<T: Keyed>(rows: Seq<T>, x: T, k: T::Key)
    requires
        keys_unique(rows),
        x.has_key(&k),
        forall|j: int| 0 <= j < rows.len() ==> !(#[trigger] rows[j].has_key(&k)),
    ensures
        keys_unique(rows.push(x)),
{
    let after = rows.push(x);
    let n = rows.len() as int;
    assert forall|a: int, b: int|
        0 <= a < after.len() && 0 <= b < after.len() && #[trigger] after[a].has_key(&after[b].key()) implies a == b by {
        if a < n && b == n {
            T::lemma_key(&rows[a], &x, &k);
            assert(after[a] == rows[a]);
        } else if a == n && b < n {
            T::lemma_key(&rows[b], &x, &k);
            T::lemma_key(&x, &rows[b], &k);
            assert(after[b] == rows[b]);
        } else if a < n && b < n {
            assert(after[a] == rows[a] && after[b] == rows[b]);
        }
    }
}

proof fn lemma_unique_upsert<T: Keyed>(rows: Seq<T>, k: T::Key, f: spec_fn(T) -> T, fresh: T)
    requires
        keys_unique(rows),
        fresh.has_key(&k),
        forall|x: T| #[trigger] f(x).key() == x.key(),
    ensures
        keys_unique(upsert_row(rows, k, f, fresh)),
{
    lemma_first_index_props(rows, k);
    match first_index(rows, k) {
        Some(i) => lemma_unique_update(rows, i, f(rows[i])),
        None => lemma_unique_push(rows, fresh, k),
    }
}

proof fn lemma_unique_update_row<T: Keyed>(rows: Seq<T>, k: T::Key, f: spec_fn(T) -> T)
    requires
        keys_unique(rows),
        forall|x: T| #[trigger] f(x).key() == x.key(),
    ensures
        keys_unique(update_row(rows, k, f)),
{
    lemma_first_index_props(rows, k);
    if let Some(i) = first_index(rows, k) {
        lemma_unique_update(rows, i, f(rows[i]));
    }
}

proof fn lemma_unique_insert<T: Keyed>(rows: Seq<T>, k: T::Key, row: T)
    requires
        keys_unique(rows),
        row.has_key(&k),
    ensures
        keys_unique(insert_absent(rows, k, row)),
{
    lemma_first_index_props(rows, k);
    if first_index(rows, k) is None {
        lemma_unique_push(rows, row, k);
    }
}

proof fn lemma_unique_map<T: Keyed>(rows: Seq<T>, g: spec_fn(T) -> T)
    requires
        keys_unique(rows),
        forall|x: T| #[trigger] g(x).key() == x.key(),
    ensures
        keys_unique(rows.map_values(g)),
{
    let after = rows.map_values(g);
    assert forall|a: int, b: int|
        0 <= a < after.len() && 0 <= b < after.len() && #[trigger] after[a].has_key(&after[b].key()) implies a == b by {
        T::lemma_key(&after[a], &rows[a], &rows[b].key());
        assert(after[b].key() == rows[b].key());
    }
}

/// A store is well formed when no table holds two rows with the same key.
pub open spec fn well_formed(s: StoreState) -> bool {
    &&& keys_unique(s.agents)
    &&& keys_unique(s.fields)
    &&& keys_unique(s.records)
    &&& keys_unique(s.feedbacks)
    &&& keys_unique(s.entities)
    &&& keys_unique(s.configs)
    &&& keys_unique(s.tokens)
    &&& keys_unique(s.cursors)
}

/// Every write keeps the store well formed.
pub proof fn lemma_write_keeps_well_formed(s: StoreState, w: Write)
    requires
        well_formed(s),
    ensures
        well_formed(applied(s, w)),
{
    match w {
        Write::UpsertAgent(u) => {
            lemma_unique_upsert(s.agents, agent_key(u.agent_id, u.chain_id), |r: AgentRow| merge_agent(r, u), new_agent(u));
        },
        Write::SetAgentField(fld) => {
            lemma_unique_upsert(s.fields, field_key(fld), |r: AgentField| AgentField { value: fld.value, ..r }, fld);
        },
        Write::ApplyAgentMetadata { agent_id, chain_id, meta } => {
            lemma_unique_update_row(s.agents, agent_key(agent_id, chain_id), |r: AgentRow| merge_metadata(r, meta));
        },
        Write::AppendRecord(r) => {
            lemma_unique_insert(s.records, record_key(r), r);
        },
        Write::InsertFeedback(fb) => {
            lemma_unique_insert(s.feedbacks, feedback_key(fb), fb);
        },
        Write::RevokeFeedback(k) => {
            lemma_unique_update_row(s.feedbacks, k, |r: FeedbackRow| revoked(r));
        },
        Write::UpsertEntity(c) => {
            lemma_unique_upsert(s.entities, c.key, |r: EntityRow| recreate(r, c), new_entity(c));
        },
        Write::CloseEntity { key, closing } => {
            lemma_unique_update_row(s.entities, key, |r: EntityRow| close(r, closing));
        },
        Write::SetListingPrice { key, price } => {
            lemma_unique_update_row(s.entities, key, |r: EntityRow| with_price(r, price));
        },
        Write::SetHighestBid { key, bidder, amount } => {
            lemma_unique_update_row(s.entities, key, |r: EntityRow| with_bid(r, bidder, amount));
        },
        Write::SetAuctionEnd { key, end_time } => {
            lemma_unique_update_row(s.entities, key, |r: EntityRow| with_end_time(r, end_time));
        },
        Write::SetMarketConfig { chain_id, fee_bps, fee_recipient } => {
            lemma_unique_upsert(
                s.configs,
                chain_id,
                |r: MarketConfig| merge_config(r, fee_bps, fee_recipient),
                MarketConfig { chain_id, fee_bps, fee_recipient },
            );
        },
        Write::SetPaymentToken(t) => {
            lemma_unique_upsert(
                s.tokens,
                token_key(t),
                |r: PaymentToken| PaymentToken { allowed: t.allowed, block_number: t.block_number, ..r },
                t,
            );
        },
    }
}

/// A revocation marks every feedback with its key in a well-formed store, and
/// changes no other feedback.
pub proof fn lemma_revoke_marks_every_copy(s: StoreState, k: FeedbackKey)
    requires
        well_formed(s),
    ensures
        ({
            let after = applied(s, Write::RevokeFeedback(k)).feedbacks;
            &&& after.len() == s.feedbacks.len()
            &&& forall|i: int| 0 <= i < after.len() && #[trigger] s.feedbacks[i].has_key(&k) ==> after[i] == revoked(s.feedbacks[i])
            &&& forall|i: int| 0 <= i < after.len() && !(#[trigger] s.feedbacks[i].has_key(&k)) ==> after[i] == s.feedbacks[i]
        }),
{
    let rows = s.feedbacks;
    lemma_first_index_props(rows, k);
    if let Some(j) = first_index(rows, k) {
        assert forall|i: int| 0 <= i < rows.len() && #[trigger] rows[i].has_key(&k) implies i == j by {
            FeedbackRow::lemma_key(&rows[i], &rows[j], &k);
        }
    }
}

/// One write to the store.
#[derive(Debug)]
pub enum Write {
    /// Upsert an agent from a registration or URI change.
    UpsertAgent(AgentUpsert),
    /// Set one key of an agent's on-chain metadata; a no-op for an unknown agent.
    SetAgentField(AgentField),
    /// Merge a resolved metadata document into an agent; a no-op for an unknown agent.
    ApplyAgentMetadata { agent_id: u64, chain_id: i32, meta: AgentUriMetadata },
    /// Add an activity entry, feedback response or bid, unless its event was seen.
    AppendRecord(Record),
    /// Add a feedback, unless its index was seen.
    InsertFeedback(FeedbackRow),
    /// Mark a feedback revoked; a no-op for an unknown feedback.
    RevokeFeedback(FeedbackKey),
    /// Upsert a marketplace entity from its creation event.
    UpsertEntity(EntityCreate),
    /// Close an active entity; a no-op for an unknown or closed one.
    CloseEntity { key: EntityKey, closing: Closing },
    /// Set a listing's price; a no-op for an unknown listing.
    SetListingPrice { key: EntityKey, price: String },
    /// Record an auction's highest bid; a no-op for an unknown auction.
    SetHighestBid { key: EntityKey, bidder: String, amount: String },
    /// Move an auction's end; a no-op for an unknown auction.
    SetAuctionEnd { key: EntityKey, end_time: u64 },
    /// Upsert a chain's fee settings; a missing value keeps the stored one.
    SetMarketConfig { chain_id: i32, fee_bps: Option<u32>, fee_recipient: Option<String> },
    /// Upsert whether a token is accepted as payment.
    SetPaymentToken(PaymentToken),
}

/// The whole store.
#[derive(Debug)]
pub struct Store {
    pub agents: Vec<AgentRow>,
    pub fields: Vec<AgentField>,
    pub records: Vec<Record>,
    pub feedbacks: Vec<FeedbackRow>,
    pub entities: Vec<EntityRow>,
    pub configs: Vec<MarketConfig>,
    pub tokens: Vec<PaymentToken>,
    pub cursors: Vec<CursorRow>,
}

/// The contents of the store.
pub ghost struct StoreState {
    pub agents: Seq<AgentRow>,
    pub fields: Seq<AgentField>,
    pub records: Seq<Record>,
    pub feedbacks: Seq<FeedbackRow>,
    pub entities: Seq<EntityRow>,
    pub configs: Seq<MarketConfig>,
    pub tokens: Seq<PaymentToken>,
    pub cursors: Seq<CursorRow>,
}

pub open spec fn empty_store() -> StoreState {
    StoreState {
        agents: Seq::empty(),
        fields: Seq::empty(),
        records: Seq::empty(),
        feedbacks: Seq::empty(),
        entities: Seq::empty(),
        configs: Seq::empty(),
        tokens: Seq::empty(),
        cursors: Seq::empty(),
    }
}

pub open spec fn agent_key(agent_id: u64, chain_id: i32) -> AgentKey {
    AgentKey { agent_id, chain_id }
}

pub open spec fn field_key(f: AgentField) -> FieldKey {
    FieldKey { agent_id: f.agent_id, chain_id: f.chain_id, key: f.key }
}

pub open spec fn feedback_key(f: FeedbackRow) -> FeedbackKey {
    FeedbackKey { agent_id: f.agent_id, chain_id: f.chain_id, feedback_index: f.feedback_index }
}

pub open spec fn token_key(t: PaymentToken) -> TokenKey {
    TokenKey { chain_id: t.chain_id, token: t.token }
}

/// The store after one write.
pub open spec fn applied(s: StoreState, w: Write) -> StoreState {
    match w {
        Write::UpsertAgent(u) => StoreState {
            agents: upsert_row(s.agents, agent_key(u.agent_id, u.chain_id), |r: AgentRow| merge_agent(r, u), new_agent(u)),
            ..s
        },
        Write::SetAgentField(f) => if first_index(s.agents, agent_key(f.agent_id, f.chain_id)) is Some {
            StoreState {
                fields: upsert_row(s.fields, field_key(f), |r: AgentField| AgentField { value: f.value, ..r }, f),
                ..s
            }
        } else {
            s
        },
        Write::ApplyAgentMetadata { agent_id, chain_id, meta } => StoreState {
            agents: update_row(s.agents, agent_key(agent_id, chain_id), |r: AgentRow| merge_metadata(r, meta)),
            ..s
        },
        Write::AppendRecord(r) => StoreState { records: insert_absent(s.records, record_key(r), r), ..s },
        Write::InsertFeedback(f) => StoreState { feedbacks: insert_absent(s.feedbacks, feedback_key(f), f), ..s },
        Write::RevokeFeedback(k) => StoreState { feedbacks: update_row(s.feedbacks, k, |r: FeedbackRow| revoked(r)), ..s },
        Write::UpsertEntity(c) => StoreState {
            entities: upsert_row(s.entities, c.key, |r: EntityRow| recreate(r, c), new_entity(c)),
            ..s
        },
        Write::CloseEntity { key, closing } => StoreState {
            entities: update_row(s.entities, key, |r: EntityRow| close(r, closing)),
            ..s
        },
        Write::SetListingPrice { key, price } => StoreState {
            entities: update_row(s.entities, key, |r: EntityRow| with_price(r, price)),
            ..s
        },
        Write::SetHighestBid { key, bidder, amount } => StoreState {
            entities: update_row(s.entities, key, |r: EntityRow| with_bid(r, bidder, amount)),
            ..s
        },
        Write::SetAuctionEnd { key, end_time } => StoreState {
            entities: update_row(s.entities, key, |r: EntityRow| with_end_time(r, end_time)),
            ..s
        },
        Write::SetMarketConfig { chain_id, fee_bps, fee_recipient } => StoreState {
            configs: upsert_row(
                s.configs,
                chain_id,
                |r: MarketConfig| merge_config(r, fee_bps, fee_recipient),
                MarketConfig { chain_id, fee_bps, fee_recipient },
            ),
            ..s
        },
        Write::SetPaymentToken(t) => StoreState {
            tokens: upsert_row(
                s.tokens,
                token_key(t),
                |r: PaymentToken| PaymentToken { allowed: t.allowed, block_number: t.block_number, ..r },
                t,
            ),
            ..s
        },
    }
}

/// The store after a sequence of writes, in order.
pub open spec fn applied_all(s: StoreState, ws: Seq<Write>) -> StoreState
    decreases ws.len(),
{
    if ws.len() == 0 {
        s
    } else {
        applied(applied_all(s, ws.drop_last()), ws.last())
    }
}

proof fn lemma_update_keeps_closed(rows: Seq<EntityRow>, k: EntityKey, f: spec_fn(EntityRow) -> EntityRow, i: int)
    requires
        0 <= i < rows.len(),
        is_terminal(rows[i].status),
        forall|x: EntityRow| is_terminal(x.status) ==> (#[trigger] f(x)).status == x.status && f(x).key == x.key,
    ensures
        update_row(rows, k, f).len() == rows.len(),
        update_row(rows, k, f)[i].status == rows[i].status,
        update_row(rows, k, f)[i].key == rows[i].key,
{
    lemma_first_index_props(rows, k);
}

proof fn lemma_upsert_keeps_closed(
    rows: Seq<EntityRow>,
    k: EntityKey,
    f: spec_fn(EntityRow) -> EntityRow,
    fresh: EntityRow,
    i: int,
)
    requires
        0 <= i < rows.len(),
        is_terminal(rows[i].status),
        forall|x: EntityRow| is_terminal(x.status) ==> (#[trigger] f(x)).status == x.status && f(x).key == x.key,
    ensures
        upsert_row(rows, k, f, fresh).len() >= rows.len(),
        upsert_row(rows, k, f, fresh)[i].status == rows[i].status,
        upsert_row(rows, k, f, fresh)[i].key == rows[i].key,
{
    lemma_first_index_props(rows, k);
}

/// Status monotonicity in the store: no write changes the status or key of an
/// entity whose status is terminal, and no write removes or moves an entity.
pub proof fn lemma_write_keeps_closed(s: StoreState, w: Write, i: int)
    requires
        0 <= i < s.entities.len(),
        is_terminal(s.entities[i].status),
    ensures
        applied(s, w).entities.len() >= s.entities.len(),
        applied(s, w).entities[i].status == s.entities[i].status,
        applied(s, w).entities[i].key == s.entities[i].key,
{
    match w {
        Write::UpsertEntity(c) => {
            lemma_upsert_keeps_closed(s.entities, c.key, |r: EntityRow| recreate(r, c), new_entity(c), i);
        },
        Write::CloseEntity { key, closing } => {
            lemma_update_keeps_closed(s.entities, key, |r: EntityRow| close(r, closing), i);
        },
        Write::SetListingPrice { key, price } => {
            lemma_update_keeps_closed(s.entities, key, |r: EntityRow| with_price(r, price), i);
        },
        Write::SetHighestBid { key, bidder, amount } => {
            lemma_update_keeps_closed(s.entities, key, |r: EntityRow| with_bid(r, bidder, amount), i);
        },
        Write::SetAuctionEnd { key, end_time } => {
            lemma_update_keeps_closed(s.entities, key, |r: EntityRow| with_end_time(r, end_time), i);
        },
        Write::UpsertAgent(_) => {},
        Write::SetAgentField(_) => {},
        Write::ApplyAgentMetadata { .. } => {},
        Write::AppendRecord(_) => {},
        Write::InsertFeedback(_) => {},
        Write::RevokeFeedback(_) => {},
        Write::SetMarketConfig { .. } => {},
        Write::SetPaymentToken(_) => {},
    }
}

/// Status monotonicity over any sequence of writes: an entity whose status is
/// terminal keeps that status, at the same place, whatever writes follow.
pub proof fn lemma_writes_keep_closed(s: StoreState, ws: Seq<Write>, i: int)
    requires
        0 <= i < s.entities.len(),
        is_terminal(s.entities[i].status),
    ensures
        applied_all(s, ws).entities.len() >= s.entities.len(),
        applied_all(s, ws).entities[i].status == s.entities[i].status,
        applied_all(s, ws).entities[i].key == s.entities[i].key,
    decreases ws.len(),
{
    if ws.len() > 0 {
        lemma_writes_keep_closed(s, ws.drop_last(), i);
        lemma_write_keeps_closed(applied_all(s, ws.drop_last()), ws.last(), i);
    }
}

impl Store {
    pub open spec fn view(&self) -> StoreState {
        StoreState {
            agents: self.agents@,
            fields: self.fields@,
            records: self.records@,
            feedbacks: self.feedbacks@,
            entities: self.entities@,
            configs: self.configs@,
            tokens: self.tokens@,
            cursors: self.cursors@,
        }
    }

    /// An empty store.
    pub fn new() -> (s: Store)
        ensures
            s@ == empty_store(),
            well_formed(s@),
    {
        Store {
            agents: Vec::new(),
            fields: Vec::new(),
            records: Vec::new(),
            feedbacks: Vec::new(),
            entities: Vec::new(),
            configs: Vec::new(),
            tokens: Vec::new(),
            cursors: Vec::new(),
        }
    }

    fn upsert_agent(&mut self, u: AgentUpsert)
        ensures
            final(self)@ == applied(old(self)@, Write::UpsertAgent(u)),
    {
        let ghost g = u;
        let key = AgentKey { agent_id: u.agent_id, chain_id: u.chain_id };
        match find_first(&self.agents, &key) {
            Some(i) => {
                let AgentUpsert { agent_id: _, chain_id: _, owner, uri, active, block_number, block_timestamp, tx_hash } = u;
                let row = &mut self.agents[i];
                match owner {
                    Some(o) => if o.unicode_len() > 0 {
                        row.owner = Some(o);
                    },
                    None => {},
                }
                match uri {
                    Some(v) => row.uri = Some(v),
                    None => {},
                }
                row.active = active;
                row.block_number = Some(block_number);
                match block_timestamp {
                    Some(t) => row.block_timestamp = Some(t),
                    None => {},
                }
                row.tx_hash = Some(tx_hash);
                assert(self.agents@ =~= old(self).agents@.update(i as int, merge_agent(old(self).agents@[i as int], g)));
            },
            None => {
                let owner = match u.owner {
                    Some(o) => if o.unicode_len() > 0 {
                        Some(o)
                    } else {
                        None
                    },
                    None => None,
                };
                self.agents.push(
                    AgentRow {
                        agent_id: u.agent_id,
                        chain_id: u.chain_id,
                        owner,
                        uri: u.uri,
                        name: None,
                        description: None,
                        image: None,
                        categories: None,
                        x402_support: None,
                        endpoints: None,
                        capabilities: None,
                        active: u.active,
                        block_number: Some(u.block_number),
                        block_timestamp: u.block_timestamp,
                        tx_hash: Some(u.tx_hash),
                    },
                );
            },
        }
    }

    fn set_agent_field(&mut self, f: AgentField)
        ensures
            final(self)@ == applied(old(self)@, Write::SetAgentField(f)),
    {
        let ghost g = f;
        let akey = AgentKey { agent_id: f.agent_id, chain_id: f.chain_id };
        if find_first(&self.agents, &akey).is_none() {
            return;
        }
        let fkey = FieldKey { agent_id: f.agent_id, chain_id: f.chain_id, key: f.key.clone() };
        match find_first(&self.fields, &fkey) {
            Some(i) => {
                let row = &mut self.fields[i];
                row.value = f.value;
                assert(self.fields@ =~= old(self).fields@.update(i as int, AgentField { value: g.value, ..old(self).fields@[i as int] }));
            },
            None => {
                self.fields.push(f);
            },
        }
    }

    fn apply_metadata(&mut self, agent_id: u64, chain_id: i32, meta: AgentUriMetadata)
        ensures
            final(self)@ == applied(old(self)@, Write::ApplyAgentMetadata { agent_id, chain_id, meta }),
    {
        let ghost m = meta;
        let key = AgentKey { agent_id, chain_id };
        if let Some(i) = find_first(&self.agents, &key) {
            let AgentUriMetadata { name, description, image, categories, x402_support, endpoints, capabilities } = meta;
            let row = &mut self.agents[i];
            match name {
                Some(v) => row.name = Some(v),
                None => {},
            }
            match description {
                Some(v) => row.description = Some(v),
                None => {},
            }
            match image {
                Some(v) => row.image = Some(v),
                None => {},
            }
            match categories {
                Some(v) => row.categories = Some(v),
                None => {},
            }
            match x402_support {
                Some(v) => row.x402_support = Some(v),
                None => {},
            }
            row.endpoints = endpoints;
            row.capabilities = capabilities;
            assert(self.agents@ =~= old(self).agents@.update(i as int, merge_metadata(old(self).agents@[i as int], m)));
        }
    }

    fn append_record(&mut self, r: Record)
        ensures
            final(self)@ == applied(old(self)@, Write::AppendRecord(r)),
    {
        let k = key_of_record(&r);
        insert_if_absent(&mut self.records, &k, r);
    }

    fn insert_feedback(&mut self, f: FeedbackRow)
        ensures
            final(self)@ == applied(old(self)@, Write::InsertFeedback(f)),
    {
        let k = FeedbackKey { agent_id: f.agent_id, chain_id: f.chain_id, feedback_index: f.feedback_index };
        insert_if_absent(&mut self.feedbacks, &k, f);
    }

    fn revoke_feedback(&mut self, k: FeedbackKey)
        ensures
            final(self)@ == applied(old(self)@, Write::RevokeFeedback(k)),
    {
        if let Some(i) = find_first(&self.feedbacks, &k) {
            let row = &mut self.feedbacks[i];
            row.revoked = true;
            assert(self.feedbacks@ =~= old(self).feedbacks@.update(i as int, revoked(old(self).feedbacks@[i as int])));
        }
    }

    fn upsert_entity(&mut self, c: EntityCreate)
        ensures
            final(self)@ == applied(old(self)@, Write::UpsertEntity(c)),
    {
        let ghost g = c;
        match find_first(&self.entities, &c.key) {
            Some(i) => {
                let EntityCreate { key: _, terms, block_number, block_timestamp, tx_hash } = c;
                let row = &mut self.entities[i];
                row.terms = terms;
                row.block_number = block_number;
                row.block_timestamp = block_timestamp;
                row.tx_hash = tx_hash;
                assert(self.entities@ =~= old(self).entities@.update(i as int, recreate(old(self).entities@[i as int], g)));
            },
            None => {
                self.entities.push(
                    EntityRow {
                        key: c.key,
                        terms: c.terms,
                        status: Status::Active,
                        counterparty: None,
                        settled_amount: None,
                        filled_token_id: None,
                        highest_bid: None,
                        highest_bidder: None,
                        block_number: c.block_number,
                        block_timestamp: c.block_timestamp,
                        tx_hash: c.tx_hash,
                    },
                );
            },
        }
    }

    fn close_entity(&mut self, key: EntityKey, closing: Closing)
        ensures
            final(self)@ == applied(old(self)@, Write::CloseEntity { key, closing }),
    {
        let ghost g = closing;
        if let Some(i) = find_first(&self.entities, &key) {
            let Closing { target, counterparty, amount, token_id } = closing;
            let row = &mut self.entities[i];
            if row.status == Status::Active {
                row.status = transition(row.status, target);
                match counterparty {
                    Some(v) => row.counterparty = Some(v),
                    None => {},
                }
                match amount {
                    Some(v) => row.settled_amount = Some(v),
                    None => {},
                }
                match token_id {
                    Some(v) => row.filled_token_id = Some(v),
                    None => {},
                }
            }
            assert(self.entities@ =~= old(self).entities@.update(i as int, close(old(self).entities@[i as int], g)));
        }
    }

    fn set_listing_price(&mut self, key: EntityKey, price: String)
        ensures
            final(self)@ == applied(old(self)@, Write::SetListingPrice { key, price }),
    {
        let ghost p = price;
        if let Some(i) = find_first(&self.entities, &key) {
            let row = &mut self.entities[i];
            match &mut row.terms {
                Terms::Listing { price: current, .. } => {
                    *current = price;
                },
                _ => {},
            }
            assert(self.entities@ =~= old(self).entities@.update(i as int, with_price(old(self).entities@[i as int], p)));
        }
    }

    fn set_highest_bid(&mut self, key: EntityKey, bidder: String, amount: String)
        ensures
            final(self)@ == applied(old(self)@, Write::SetHighestBid { key, bidder, amount }),
    {
        let ghost b = bidder;
        let ghost a = amount;
        if let Some(i) = find_first(&self.entities, &key) {
            let row = &mut self.entities[i];
            row.highest_bid = Some(amount);
            row.highest_bidder = Some(bidder);
            assert(self.entities@ =~= old(self).entities@.update(i as int, with_bid(old(self).entities@[i as int], b, a)));
        }
    }

    fn set_auction_end(&mut self, key: EntityKey, end_time: u64)
        ensures
            final(self)@ == applied(old(self)@, Write::SetAuctionEnd { key, end_time }),
    {
        if let Some(i) = find_first(&self.entities, &key) {
            let row = &mut self.entities[i];
            match &mut row.terms {
                Terms::Auction { end_time: current, .. } => {
                    *current = end_time;
                },
                _ => {},
            }
            assert(self.entities@ =~= old(self).entities@.update(i as int, with_end_time(old(self).entities@[i as int], end_time)));
        }
    }

    fn set_market_config(&mut self, chain_id: i32, fee_bps: Option<u32>, fee_recipient: Option<String>)
        ensures
            final(self)@ == applied(old(self)@, Write::SetMarketConfig { chain_id, fee_bps, fee_recipient }),
    {
        let ghost r = fee_recipient;
        match find_first(&self.configs, &chain_id) {
            Some(i) => {
                let row = &mut self.configs[i];
                match fee_bps {
                    Some(v) => row.fee_bps = Some(v),
                    None => {},
                }
                match fee_recipient {
                    Some(v) => row.fee_recipient = Some(v),
                    None => {},
                }
                assert(self.configs@ =~= old(self).configs@.update(i as int, merge_config(old(self).configs@[i as int], fee_bps, r)));
            },
            None => {
                self.configs.push(MarketConfig { chain_id, fee_bps, fee_recipient });
            },
        }
    }

    fn set_payment_token(&mut self, t: PaymentToken)
        ensures
            final(self)@ == applied(old(self)@, Write::SetPaymentToken(t)),
    {
        let ghost g = t;
        let k = TokenKey { chain_id: t.chain_id, token: t.token.clone() };
        match find_first(&self.tokens, &k) {
            Some(i) => {
                let row = &mut self.tokens[i];
                row.allowed = t.allowed;
                row.block_number = t.block_number;
                assert(self.tokens@ =~= old(self).tokens@.update(
                    i as int,
                    PaymentToken { allowed: g.allowed, block_number: g.block_number, ..old(self).tokens@[i as int] },
                ));
            },
            None => {
                self.tokens.push(t);
            },
        }
    }

    /// Applies one write.
    pub fn apply(&mut self, w: Write)
        ensures
            final(self)@ == applied(old(self)@, w),
            well_formed(old(self)@) ==> well_formed(final(self)@),
    {
        proof {
            if well_formed(self@) {
                lemma_write_keeps_well_formed(self@, w);
            }
        }
        match w {
            Write::UpsertAgent(u) => self.upsert_agent(u),
            Write::SetAgentField(f) => self.set_agent_field(f),
            Write::ApplyAgentMetadata { agent_id, chain_id, meta } => self.apply_metadata(agent_id, chain_id, meta),
            Write::AppendRecord(r) => self.append_record(r),
            Write::InsertFeedback(f) => self.insert_feedback(f),
            Write::RevokeFeedback(k) => self.revoke_feedback(k),
            Write::UpsertEntity(c) => self.upsert_entity(c),
            Write::CloseEntity { key, closing } => self.close_entity(key, closing),
            Write::SetListingPrice { key, price } => self.set_listing_price(key, price),
            Write::SetHighestBid { key, bidder, amount } => self.set_highest_bid(key, bidder, amount),
            Write::SetAuctionEnd { key, end_time } => self.set_auction_end(key, end_time),
            Write::SetMarketConfig { chain_id, fee_bps, fee_recipient } => self.set_market_config(chain_id, fee_bps, fee_recipient),
            Write::SetPaymentToken(t) => self.set_payment_token(t),
        }
    }

    /// Applies writes in order.
    pub fn apply_all(&mut self, ws: Vec<Write>)
        ensures
            final(self)@ == applied_all(old(self)@, ws@),
            well_formed(old(self)@) ==> well_formed(final(self)@),
    {
        let ghost all = ws@;
        let total = ws.len();
        let mut rest = ws;
        let mut done: usize = 0;
        while rest.len() > 0
            invariant
                done + rest@.len() == all.len(),
                all.len() == total,
                rest@ == all.skip(done as int),
                self@ == applied_all(old(self)@, all.take(done as int)),
                well_formed(old(self)@) ==> well_formed(self@),
            decreases rest.len(),
        {
            let w = rest.remove(0);
            proof {
                assert(all.take(done + 1).drop_last() =~= all.take(done as int));
                assert(all.take(done + 1).last() == all[done as int]);
            }
            self.apply(w);
            done = done + 1;
            proof {
                assert(rest@ =~= all.skip(done as int));
            }
        }
        assert(all.take(done as int) =~= all);
    }
}

/// What `first_index` gives: the first row with the key, or none at all.
proof fn lemma_first_index_props<T: Keyed>(rows: Seq<T>, k: T::Key)
    ensures
        first_index(rows, k) matches Some(i) ==> 0 <= i < rows.len() && rows[i].has_key(&k) && forall|j: int|
            0 <= j < i ==> !(#[trigger] rows[j].has_key(&k)),
        first_index(rows, k) is None ==> forall|i: int| 0 <= i < rows.len() ==> !(#[trigger] rows[i].has_key(&k)),
{
    if exists|i: int| 0 <= i < rows.len() && #[trigger] rows[i].has_key(&k) {
        let i = choose|i: int| 0 <= i < rows.len() && #[trigger] rows[i].has_key(&k);
        lemma_least_index(rows, k, i);
    }
}

proof fn lemma_least_index<T: Keyed>(rows: Seq<T>, k: T::Key, i: int)
    requires
        0 <= i < rows.len(),
        rows[i].has_key(&k),
    ensures
        first_index(rows, k) matches Some(m) && 0 <= m <= i && rows[m].has_key(&k) && forall|j: int|
            0 <= j < m ==> !(#[trigger] rows[j].has_key(&k)),
    decreases i,
{
    if exists|j: int| 0 <= j < i && #[trigger] rows[j].has_key(&k) {
        let j = choose|j: int| 0 <= j < i && #[trigger] rows[j].has_key(&k);
        lemma_least_index(rows, k, j);
    } else {
        lemma_first_index(rows, k, i);
    }
}

proof fn lemma_upsert_twice<T: Keyed>(rows: Seq<T>, k: T::Key, f: spec_fn(T) -> T, fresh: T)
    requires
        fresh.has_key(&k),
        f(fresh) == fresh,
        forall|x: T| #[trigger] x.has_key(&k) ==> f(x).has_key(&k) && f(f(x)) == f(x),
    ensures
        upsert_row(upsert_row(rows, k, f, fresh), k, f, fresh) == upsert_row(rows, k, f, fresh),
{
    lemma_first_index_props(rows, k);
    let once = upsert_row(rows, k, f, fresh);
    match first_index(rows, k) {
        Some(i) => {
            assert forall|j: int| 0 <= j < i implies !(#[trigger] once[j].has_key(&k)) by {
                assert(once[j] == rows[j]);
            }
            lemma_first_index(once, k, i);
            assert(once.update(i, f(once[i])) =~= once);
        },
        None => {
            let n = rows.len() as int;
            assert forall|j: int| 0 <= j < n implies !(#[trigger] once[j].has_key(&k)) by {
                assert(once[j] == rows[j]);
            }
            lemma_first_index(once, k, n);
            assert(once.update(n, f(once[n])) =~= once);
        },
    }
}

proof fn lemma_update_twice<T: Keyed>(rows: Seq<T>, k: T::Key, f: spec_fn(T) -> T)
    requires
        forall|x: T| #[trigger] x.has_key(&k) ==> f(x).has_key(&k) && f(f(x)) == f(x),
    ensures
        update_row(update_row(rows, k, f), k, f) == update_row(rows, k, f),
{
    lemma_first_index_props(rows, k);
    let once = update_row(rows, k, f);
    if let Some(i) = first_index(rows, k) {
        assert forall|j: int| 0 <= j < i implies !(#[trigger] once[j].has_key(&k)) by {
            assert(once[j] == rows[j]);
        }
        lemma_first_index(once, k, i);
        assert(once.update(i, f(once[i])) =~= once);
    }
}

proof fn lemma_insert_twice<T: Keyed>(rows: Seq<T>, k: T::Key, row: T)
    requires
        row.has_key(&k),
    ensures
        insert_absent(insert_absent(rows, k, row), k, row) == insert_absent(rows, k, row),
{
    lemma_first_index_props(rows, k);
    if first_index(rows, k) is None {
        let once = rows.push(row);
        let n = rows.len() as int;
        assert forall|j: int| 0 <= j < n implies !(#[trigger] once[j].has_key(&k)) by {
            assert(once[j] == rows[j]);
        }
        lemma_first_index(once, k, n);
    }
}

/// Idempotent writes: applying any write a second time right after the first
/// changes nothing.
pub proof fn lemma_write_idempotent(s: StoreState, w: Write)
    ensures
        applied(applied(s, w), w) == applied(s, w),
{
    match w {
        Write::UpsertAgent(u) => {
            let k = agent_key(u.agent_id, u.chain_id);
            let f = |r: AgentRow| merge_agent(r, u);
            assert(f(new_agent(u)) == new_agent(u));
            lemma_upsert_twice(s.agents, k, f, new_agent(u));
        },
        Write::SetAgentField(fld) => {
            let f = |r: AgentField| AgentField { value: fld.value, ..r };
            assert(f(fld) == fld);
            lemma_upsert_twice(s.fields, field_key(fld), f, fld);
        },
        Write::ApplyAgentMetadata { agent_id, chain_id, meta } => {
            lemma_update_twice(s.agents, agent_key(agent_id, chain_id), |r: AgentRow| merge_metadata(r, meta));
        },
        Write::AppendRecord(r) => {
            lemma_insert_twice(s.records, record_key(r), r);
        },
        Write::InsertFeedback(fb) => {
            lemma_insert_twice(s.feedbacks, feedback_key(fb), fb);
        },
        Write::RevokeFeedback(k) => {
            lemma_update_twice(s.feedbacks, k, |r: FeedbackRow| revoked(r));
        },
        Write::UpsertEntity(c) => {
            let f = |r: EntityRow| recreate(r, c);
            assert(f(new_entity(c)) == new_entity(c));
            lemma_upsert_twice(s.entities, c.key, f, new_entity(c));
        },
        Write::CloseEntity { key, closing } => {
            let f = |r: EntityRow| close(r, closing);
            assert forall|x: EntityRow| #[trigger] x.has_key(&key) implies f(x).has_key(&key) && f(f(x)) == f(x) by {
                if x.status == Status::Active {
                    let y = close(x, closing);
                    if y.status == Status::Active {
                        assert(close(y, closing) == y);
                    }
                }
            }
            lemma_update_twice(s.entities, key, f);
        },
        Write::SetListingPrice { key, price } => {
            lemma_update_twice(s.entities, key, |r: EntityRow| with_price(r, price));
        },
        Write::SetHighestBid { key, bidder, amount } => {
            lemma_update_twice(s.entities, key, |r: EntityRow| with_bid(r, bidder, amount));
        },
        Write::SetAuctionEnd { key, end_time } => {
            lemma_update_twice(s.entities, key, |r: EntityRow| with_end_time(r, end_time));
        },
        Write::SetMarketConfig { chain_id, fee_bps, fee_recipient } => {
            let fresh = MarketConfig { chain_id, fee_bps, fee_recipient };
            let f = |r: MarketConfig| merge_config(r, fee_bps, fee_recipient);
            assert(f(fresh) == fresh);
            lemma_upsert_twice(s.configs, chain_id, f, fresh);
        },
        Write::SetPaymentToken(t) => {
            let f = |r: PaymentToken| PaymentToken { allowed: t.allowed, block_number: t.block_number, ..r };
            assert(f(t) == t);
            lemma_upsert_twice(s.tokens, token_key(t), f, t);
        },
    }
}

/// No two event-keyed records share a key.
pub open spec fn records_unique(rows: Seq<Record>) -> bool {
    forall|i: int, j: int|
        0 <= i < rows.len() && 0 <= j < rows.len() && #[trigger] rows[i].has_key(&record_key(#[trigger] rows[j])) ==> i == j
}

/// Whether a record with key `k` is stored.
pub open spec fn has_record(rows: Seq<Record>, k: RecordKey) -> bool {
    exists|i: int| 0 <= i < rows.len() && #[trigger] rows[i].has_key(&k)
}

/// Every record that one of the writes appends is stored.
pub open spec fn records_of_present(rows: Seq<Record>, ws: Seq<Write>) -> bool {
    forall|n: int| 0 <= n < ws.len() ==> (#[trigger] ws[n] matches Write::AppendRecord(r) ==> has_record(rows, record_key(r)))
}

proof fn lemma_write_keeps_records(s: StoreState, w: Write)
    ensures
        !(w is AppendRecord) ==> applied(s, w).records == s.records,
        forall|k: RecordKey| has_record(s.records, k) ==> #[trigger] has_record(applied(s, w).records, k),
        w matches Write::AppendRecord(r) ==> has_record(applied(s, w).records, record_key(r)),
        records_unique(s.records) ==> records_unique(applied(s, w).records),
{
    if let Write::AppendRecord(r) = w {
        let k = record_key(r);
        lemma_first_index_props(s.records, k);
        let after = applied(s, w).records;
        if first_index(s.records, k) is None {
            let n = s.records.len() as int;
            assert(after[n] == r);
            assert(after[n].has_key(&k));
            assert(has_record(after, k));
            assert forall|q: RecordKey| has_record(s.records, q) implies #[trigger] has_record(after, q) by {
                let i = choose|i: int| 0 <= i < s.records.len() && #[trigger] s.records[i].has_key(&q);
                assert(after[i] == s.records[i]);
            }
            if records_unique(s.records) {
                assert forall|i: int, j: int|
                    0 <= i < after.len() && 0 <= j < after.len() && #[trigger] after[i].has_key(&record_key(#[trigger] after[j])) implies i
                    == j by {
                    if i < n && j < n {
                        assert(after[i] == s.records[i]);
                        assert(after[j] == s.records[j]);
                    } else if i < n {
                        assert(after[i] == s.records[i]);
                        assert(!s.records[i].has_key(&k));
                    } else if j < n {
                        assert(after[j] == s.records[j]);
                        assert(!s.records[j].has_key(&k));
                    }
                }
            }
        } else {
            let i = first_index(s.records, k)->Some_0;
            assert(s.records[i].has_key(&k));
        }
    }
}

proof fn lemma_replay_unchanged(y: StoreState, ws: Seq<Write>)
    requires
        records_of_present(y.records, ws),
    ensures
        applied_all(y, ws).records == y.records,
    decreases ws.len(),
{
    if ws.len() > 0 {
        let pre = ws.drop_last();
        assert(records_of_present(y.records, pre)) by {
            assert forall|n: int| 0 <= n < pre.len() implies (#[trigger] pre[n] matches Write::AppendRecord(r) ==> has_record(
                y.records,
                record_key(r),
            )) by {
                assert(pre[n] == ws[n]);
            }
        }
        lemma_replay_unchanged(y, pre);
        let mid = applied_all(y, pre);
        let w = ws.last();
        assert(ws[ws.len() - 1] == w);
        lemma_write_keeps_records(mid, w);
        if let Write::AppendRecord(r) = w {
            lemma_first_index_props(mid.records, record_key(r));
            assert(has_record(mid.records, record_key(r)));
            let i = choose|i: int| 0 <= i < mid.records.len() && #[trigger] mid.records[i].has_key(&record_key(r));
            assert(first_index(mid.records, record_key(r)) is Some);
        }
    }
}

proof fn lemma_first_pass(s: StoreState, ws: Seq<Write>)
    requires
        records_unique(s.records),
    ensures
        records_of_present(applied_all(s, ws).records, ws),
        records_unique(applied_all(s, ws).records),
    decreases ws.len(),
{
    if ws.len() > 0 {
        let pre = ws.drop_last();
        lemma_first_pass(s, pre);
        let mid = applied_all(s, pre);
        let w = ws.last();
        lemma_write_keeps_records(mid, w);
        let after = applied_all(s, ws);
        assert forall|n: int| 0 <= n < ws.len() implies (#[trigger] ws[n] matches Write::AppendRecord(r) ==> has_record(
            after.records,
            record_key(r),
        )) by {
            if n < ws.len() - 1 {
                assert(ws[n] == pre[n]);
                if let Write::AppendRecord(r) = ws[n] {
                    assert(has_record(mid.records, record_key(r)));
                }
            }
        }
    }
}

/// Idempotent replay, for the records written once per event (activity
/// entries, feedback responses, bids): replaying any sequence of writes a
/// second time leaves them exactly as the first pass left them, and no two of
/// them ever share a (kind, chain, transaction, log index) key.
pub proof fn lemma_replay_records(s: StoreState, ws: Seq<Write>)
    requires
        records_unique(s.records),
    ensures
        applied_all(applied_all(s, ws), ws).records == applied_all(s, ws).records,
        records_unique(applied_all(s, ws).records),
        records_unique(applied_all(applied_all(s, ws), ws).records),
{
    lemma_first_pass(s, ws);
    lemma_replay_unchanged(applied_all(s, ws), ws);
}

/// An agent row after the time of block `block` on chain `chain` became known:
/// set where the row is from that block and has no time yet.
pub open spec fn agent_filled(r: AgentRow, chain: i32, block: u64, ts: u64) -> AgentRow {
    if r.chain_id == chain && r.block_number == Some(block) && r.block_timestamp is None {
        AgentRow { block_timestamp: Some(ts), ..r }
    } else {
        r
    }
}

pub open spec fn feedback_filled(r: FeedbackRow, chain: i32, block: u64, ts: u64) -> FeedbackRow {
    if r.chain_id == chain && r.block_number == block && r.block_timestamp is None {
        FeedbackRow { block_timestamp: Some(ts), ..r }
    } else {
        r
    }
}

pub open spec fn record_filled(r: Record, chain: i32, block: u64, ts: u64) -> Record {
    if r.chain_id == chain && r.block_number == block && r.block_timestamp is None {
        Record { block_timestamp: Some(ts), ..r }
    } else {
        r
    }
}

/// The store after the time of a block became known: agents, feedbacks and
/// event-keyed records from that block get it where they have none; nothing
/// else changes.
pub open spec fn timestamp_filled(s: StoreState, chain: i32, block: u64, ts: u64) -> StoreState {
    StoreState {
        agents: s.agents.map_values(|r: AgentRow| agent_filled(r, chain, block, ts)),
        feedbacks: s.feedbacks.map_values(|r: FeedbackRow| feedback_filled(r, chain, block, ts)),
        records: s.records.map_values(|r: Record| record_filled(r, chain, block, ts)),
        ..s
    }
}

/// Whether some row from block `b` of chain `c` has no time yet.
pub open spec fn lacks_timestamp(s: StoreState, c: i32, b: u64) -> bool {
    ||| exists|i: int|
        0 <= i < s.agents.len() && #[trigger] s.agents[i].chain_id == c && s.agents[i].block_number == Some(b)
            && s.agents[i].block_timestamp is None
    ||| exists|i: int|
        0 <= i < s.feedbacks.len() && #[trigger] s.feedbacks[i].chain_id == c && s.feedbacks[i].block_number == b
            && s.feedbacks[i].block_timestamp is None
    ||| exists|i: int|
        0 <= i < s.records.len() && #[trigger] s.records[i].chain_id == c && s.records[i].block_number == b
            && s.records[i].block_timestamp is None
}

fn push_new_pair(v: &mut Vec<(i32, u64)>, p: (i32, u64))
    ensures
        final(v)@.to_set() == old(v)@.to_set().insert(p),
        old(v)@.no_duplicates() ==> final(v)@.no_duplicates(),
{
    let mut i: usize = 0;
    while i < v.len()
        invariant
            i <= v.len(),
            forall|j: int| 0 <= j < i ==> v@[j] != p,
        decreases v.len() - i,
    {
        if v[i].0 == p.0 && v[i].1 == p.1 {
            proof {
                assert(v@.to_set().insert(p) =~= v@.to_set()) by {
                    assert(v@.to_set().contains(p)) by {
                        assert(v@.contains(p));
                    }
                }
            }
            return;
        }
        i = i + 1;
    }
    let ghost before = v@;
    v.push(p);
    proof {
        assert(v@.to_set() =~= before.to_set().insert(p)) by {
            assert forall|q| #[trigger] v@.to_set().contains(q) <==> before.to_set().insert(p).contains(q) by {
                if v@.contains(q) && q != p {
                    let k = choose|k: int| 0 <= k < v@.len() && v@[k] == q;
                    assert(before[k] == q);
                }
                if before.contains(q) {
                    let k = choose|k: int| 0 <= k < before.len() && before[k] == q;
                    assert(v@[k] == q);
                }
                if q == p {
                    assert(v@[before.len() as int] == p);
                }
            }
        }
        if before.no_duplicates() {
            assert forall|a: int, b: int| 0 <= a < v@.len() && 0 <= b < v@.len() && a != b implies v@[a] != v@[b] by {
                if a < before.len() && b < before.len() {
                } else if a < before.len() {
                    assert(v@[a] != p);
                } else if b < before.len() {
                    assert(v@[b] != p);
                }
            }
        }
    }
}

/// Counts of a timestamp backfill pass: blocks whose time was filled in, and
/// blocks whose time could not be read or written.
#[derive(Clone, Copy, Debug, PartialEq, Eq, Structural)]
pub struct BackfillReport {
    pub filled: u64,
    pub failed: u64,
}

impl BackfillReport {
    pub fn new() -> (r: BackfillReport)
        ensures
            r.filled == 0 && r.failed == 0,
    {
        BackfillReport { filled: 0, failed: 0 }
    }

    /// Counts one block: filled when `ok`, failed otherwise. Counts stop at the
    /// largest `u64`.
    pub fn record(&mut self, ok: bool)
        ensures
            ok ==> final(self).filled == (if old(self).filled < u64::MAX { old(self).filled + 1 } else { u64::MAX as int }),
            ok ==> final(self).failed == old(self).failed,
            !ok ==> final(self).failed == (if old(self).failed < u64::MAX { old(self).failed + 1 } else { u64::MAX as int }),
            !ok ==> final(self).filled == old(self).filled,
    {
        if ok {
            self.filled = self.filled.saturating_add(1);
        } else {
            self.failed = self.failed.saturating_add(1);
        }
    }
}

impl Store {
    /// The distinct (chain, block) pairs of agents, feedbacks and event-keyed
    /// records that have no block time yet.
    pub fn blocks_missing_timestamps(&self) -> (r: Vec<(i32, u64)>)
        ensures
            r@.no_duplicates(),
            forall|c: i32, b: u64| #[trigger] r@.contains((c, b)) <==> lacks_timestamp(self@, c, b),
    {
        let mut v: Vec<(i32, u64)> = Vec::new();
        let ghost s = self@;
        let mut i: usize = 0;
        while i < self.agents.len()
            invariant
                s == self@,
                i <= self.agents.len(),
                v@.no_duplicates(),
                forall|c: i32, b: u64| #[trigger] v@.to_set().contains((c, b)) <==> exists|k: int|
                    0 <= k < i && #[trigger] s.agents[k].chain_id == c && s.agents[k].block_number == Some(b)
                        && s.agents[k].block_timestamp is None,
            decreases self.agents.len() - i,
        {
            let row = &self.agents[i];
            if let Some(b) = row.block_number {
                if row.block_timestamp.is_none() {
                    push_new_pair(&mut v, (row.chain_id, b));
                }
            }
            i = i + 1;
        }
        let mut i: usize = 0;
        while i < self.feedbacks.len()
            invariant
                s == self@,
                i <= self.feedbacks.len(),
                v@.no_duplicates(),
                forall|c: i32, b: u64| #[trigger] v@.to_set().contains((c, b)) <==> (exists|k: int|
                    0 <= k < s.agents.len() && #[trigger] s.agents[k].chain_id == c && s.agents[k].block_number
                        == Some(b) && s.agents[k].block_timestamp is None) || (exists|k: int|
                    0 <= k < i && #[trigger] s.feedbacks[k].chain_id == c && s.feedbacks[k].block_number == b
                        && s.feedbacks[k].block_timestamp is None),
            decreases self.feedbacks.len() - i,
        {
            let row = &self.feedbacks[i];
            if row.block_timestamp.is_none() {
                push_new_pair(&mut v, (row.chain_id, row.block_number));
            }
            i = i + 1;
        }
        let mut i: usize = 0;
        while i < self.records.len()
            invariant
                s == self@,
                i <= self.records.len(),
                v@.no_duplicates(),
                forall|c: i32, b: u64| #[trigger] v@.to_set().contains((c, b)) <==> (exists|k: int|
                    0 <= k < s.agents.len() && #[trigger] s.agents[k].chain_id == c && s.agents[k].block_number
                        == Some(b) && s.agents[k].block_timestamp is None) || (exists|k: int|
                    0 <= k < s.feedbacks.len() && #[trigger] s.feedbacks[k].chain_id == c && s.feedbacks[k].block_number
                        == b && s.feedbacks[k].block_timestamp is None) || (exists|k: int|
                    0 <= k < i && #[trigger] s.records[k].chain_id == c && s.records[k].block_number == b
                        && s.records[k].block_timestamp is None),
            decreases self.records.len() - i,
        {
            let row = &self.records[i];
            if row.block_timestamp.is_none() {
                push_new_pair(&mut v, (row.chain_id, row.block_number));
            }
            i = i + 1;
        }
        proof {
            assert forall|c: i32, b: u64| #[trigger] v@.contains((c, b)) <==> lacks_timestamp(s, c, b) by {
                assert(v@.contains((c, b)) <==> v@.to_set().contains((c, b)));
            }
        }
        v
    }

    /// Sets the time of block `block` on chain `chain` on every agent, feedback
    /// and event-keyed record from that block that has none.
    pub fn fill_block_timestamp(&mut self, chain: i32, block: u64, ts: u64)
        ensures
            final(self)@ == timestamp_filled(old(self)@, chain, block, ts),
            well_formed(old(self)@) ==> well_formed(final(self)@),
    {
        proof {
            if well_formed(self@) {
                lemma_unique_map(self@.agents, |r: AgentRow| agent_filled(r, chain, block, ts));
                lemma_unique_map(self@.feedbacks, |r: FeedbackRow| feedback_filled(r, chain, block, ts));
                lemma_unique_map(self@.records, |r: Record| record_filled(r, chain, block, ts));
            }
        }
        let ghost s = self@;
        let mut i: usize = 0;
        while i < self.agents.len()
            invariant
                i <= self.agents.len(),
                self.agents@.len() == s.agents.len(),
                forall|k: int| 0 <= k < i ==> self.agents@[k] == agent_filled(s.agents[k], chain, block, ts),
                forall|k: int| i <= k < s.agents.len() ==> self.agents@[k] == s.agents[k],
                self.fields@ == s.fields,
                self.records@ == s.records,
                self.feedbacks@ == s.feedbacks,
                self.entities@ == s.entities,
                self.configs@ == s.configs,
                self.tokens@ == s.tokens,
                self.cursors@ == s.cursors,
            decreases self.agents.len() - i,
        {
            let row = &mut self.agents[i];
            if row.chain_id == chain && row.block_number == Some(block) && row.block_timestamp.is_none() {
                row.block_timestamp = Some(ts);
            }
            i = i + 1;
        }
        assert(self.agents@ =~= s.agents.map_values(|r: AgentRow| agent_filled(r, chain, block, ts)));
        let mut i: usize = 0;
        while i < self.feedbacks.len()
            invariant
                i <= self.feedbacks.len(),
                self.feedbacks@.len() == s.feedbacks.len(),
                forall|k: int| 0 <= k < i ==> self.feedbacks@[k] == feedback_filled(s.feedbacks[k], chain, block, ts),
                forall|k: int| i <= k < s.feedbacks.len() ==> self.feedbacks@[k] == s.feedbacks[k],
                self.agents@ == s.agents.map_values(|r: AgentRow| agent_filled(r, chain, block, ts)),
                self.fields@ == s.fields,
                self.records@ == s.records,
                self.entities@ == s.entities,
                self.configs@ == s.configs,
                self.tokens@ == s.tokens,
                self.cursors@ == s.cursors,
            decreases self.feedbacks.len() - i,
        {
            let row = &mut self.feedbacks[i];
            if row.chain_id == chain && row.block_number == block && row.block_timestamp.is_none() {
                row.block_timestamp = Some(ts);
            }
            i = i + 1;
        }
        assert(self.feedbacks@ =~= s.feedbacks.map_values(|r: FeedbackRow| feedback_filled(r, chain, block, ts)));
        let mut i: usize = 0;
        while i < self.records.len()
            invariant
                i <= self.records.len(),
                self.records@.len() == s.records.len(),
                forall|k: int| 0 <= k < i ==> self.records@[k] == record_filled(s.records[k], chain, block, ts),
                forall|k: int| i <= k < s.records.len() ==> self.records@[k] == s.records[k],
                self.agents@ == s.agents.map_values(|r: AgentRow| agent_filled(r, chain, block, ts)),
                self.feedbacks@ == s.feedbacks.map_values(|r: FeedbackRow| feedback_filled(r, chain, block, ts)),
                self.fields@ == s.fields,
                self.entities@ == s.entities,
                self.configs@ == s.configs,
                self.tokens@ == s.tokens,
                self.cursors@ == s.cursors,
            decreases self.records.len() - i,
        {
            let row = &mut self.records[i];
            if row.chain_id == chain && row.block_number == block && row.block_timestamp.is_none() {
                row.block_timestamp = Some(ts);
            }
            i = i + 1;
        }
        proof {
            assert(self.records@ =~= s.records.map_values(|r: Record| record_filled(r, chain, block, ts)));
        }
    }
}

} // verus!
