//! Event dispatch: decoded identity, reputation and marketplace events become
//! the store writes that apply them.

use vstd::prelude::*;
use crate::decimal::{integer_in_range, parse_integer};
use crate::status::Status;
use crate::store::{
    ActivityData, AgentField, AgentUpsert, Closing, EntityCreate, EntityKey, EntityKind, FeedbackKey, FeedbackRow,
    PaymentToken, Record, RecordBody, Terms, Write,
};

verus! {

/// The chain a batch of events was read from.
#[derive(Debug)]
pub struct ChainContext {
    pub chain_id: i32,
    /// Address of the identity contract, `0x` and hex digits.
    pub identity_address: String,
}

/// Where an event was emitted.
#[derive(Debug)]
pub struct LogMeta {
    pub block_number: u64,
    /// Seconds since the epoch, when the block's time could be read.
    pub block_timestamp: Option<u64>,
    pub tx_hash: String,
    pub log_index: u64,
}

/// An agent whose metadata document is to be read in the background.
#[derive(Debug)]
pub struct MetadataJob {
    pub agent_id: u64,
    pub chain_id: i32,
    pub uri: String,
}

/// The writes of one event, and the metadata read it asks for.
#[derive(Debug)]
pub struct Dispatch {
    pub writes: Vec<Write>,
    pub job: Option<MetadataJob>,
}

/// Events of the identity registry.
#[derive(Debug)]
pub enum IdentityEvent {
    Registered { agent_id: u64, owner: String, uri: String },
    UriUpdated { agent_id: u64, new_uri: String, updated_by: String },
    MetadataSet { agent_id: u64, key: String, value: String },
}

/// Events of the reputation registry. A feedback value is `value / 10^value_decimals`.
#[derive(Debug)]
pub enum ReputationEvent {
    NewFeedback {
        agent_id: u64,
        client: String,
        feedback_index: u64,
        value: i128,
        value_decimals: u8,
        tag1: String,
        tag2: String,
        endpoint: String,
        feedback_uri: String,
        feedback_hash: String,
    },
    FeedbackRevoked { agent_id: u64, client: String, feedback_index: u64 },
    ResponseAppended {
        agent_id: u64,
        client: String,
        feedback_index: u64,
        responder: String,
        response_uri: String,
        response_hash: String,
    },
}

/// Events of the marketplace. Amounts and token ids are decimal digit strings.
#[derive(Debug)]
pub enum MarketEvent {
    Listed { listing_id: u64, seller: String, nft_contract: String, token_id: String, payment_token: String, price: String, expiry: u64 },
    Bought { listing_id: u64, buyer: String, price: String },
    ListingCancelled { listing_id: u64 },
    ListingPriceUpdated { listing_id: u64, new_price: String },
    OfferMade { offer_id: u64, offerer: String, nft_contract: String, token_id: String, payment_token: String, amount: String, expiry: u64 },
    OfferAccepted { offer_id: u64, seller: String },
    OfferCancelled { offer_id: u64 },
    CollectionOfferMade { offer_id: u64, offerer: String, nft_contract: String, payment_token: String, amount: String, expiry: u64 },
    CollectionOfferAccepted { offer_id: u64, seller: String, token_id: String },
    CollectionOfferCancelled { offer_id: u64 },
    AuctionCreated {
        auction_id: u64,
        seller: String,
        nft_contract: String,
        token_id: String,
        payment_token: String,
        start_price: String,
        reserve_price: String,
        buy_now_price: String,
        start_time: u64,
        end_time: u64,
    },
    BidPlaced { auction_id: u64, bidder: String, amount: String },
    AuctionSettled { auction_id: u64, winner: String, amount: String },
    AuctionCancelled { auction_id: u64 },
    AuctionExtended { auction_id: u64, new_end_time: u64 },
    AuctionBuyNow { auction_id: u64, buyer: String, price: String },
    AuctionReserveNotMet { auction_id: u64 },
    DutchAuctionCreated {
        auction_id: u64,
        seller: String,
        nft_contract: String,
        token_id: String,
        payment_token: String,
        start_price: String,
        end_price: String,
        start_time: u64,
        end_time: u64,
    },
    DutchAuctionBought { auction_id: u64, buyer: String, price: String },
    DutchAuctionCancelled { auction_id: u64 },
    BundleListed { bundle_id: u64, seller: String, item_count: u32, payment_token: String, price: String, expiry: u64 },
    BundleBought { bundle_id: u64, buyer: String, price: String },
    BundleListingCancelled { bundle_id: u64 },
    PlatformFeeUpdated { new_fee: u32 },
    FeeRecipientUpdated { new_recipient: String },
    PaymentTokenAdded { token: String },
    PaymentTokenRemoved { token: String },
}

/// The NFT a stored listing is for.
#[derive(Debug)]
pub struct NftRef {
    pub nft_contract: String,
    pub token_id: String,
}

/// The items of a bundle, as read from the marketplace contract.
#[derive(Debug)]
pub struct BundleItems {
    pub nft_contracts: Vec<String>,
    pub token_ids: Vec<String>,
}

/// The activity entry an event adds to an agent's feed.
pub open spec fn activity_write(chain: i32, m: LogMeta, agent_id: u64, data: ActivityData) -> Write {
    Write::AppendRecord(
        Record {
            chain_id: chain,
            tx_hash: m.tx_hash,
            log_index: m.log_index,
            block_number: m.block_number,
            block_timestamp: m.block_timestamp,
            body: RecordBody::Activity { agent_id, data },
        },
    )
}

fn activity(chain: i32, meta: &LogMeta, agent_id: u64, data: ActivityData) -> (w: Write)
    ensures
        w == activity_write(chain, *meta, agent_id, data),
{
    Write::AppendRecord(
        Record {
            chain_id: chain,
            tx_hash: meta.tx_hash.clone(),
            log_index: meta.log_index,
            block_number: meta.block_number,
            block_timestamp: meta.block_timestamp,
            body: RecordBody::Activity { agent_id, data },
        },
    )
}

/// The writes of an identity event: registration and URI change upsert the
/// agent (a URI change keeps the owner), a metadata entry sets one key; each
/// adds an activity entry.
pub open spec fn identity_spec(chain: i32, m: LogMeta, ev: IdentityEvent) -> Seq<Write> {
    match ev {
        IdentityEvent::Registered { agent_id, owner, uri } => seq![
            Write::UpsertAgent(
                AgentUpsert {
                    agent_id,
                    chain_id: chain,
                    owner: Some(owner),
                    uri: Some(uri),
                    active: true,
                    block_number: m.block_number,
                    block_timestamp: m.block_timestamp,
                    tx_hash: m.tx_hash,
                },
            ),
            activity_write(chain, m, agent_id, ActivityData::Registered { owner, uri }),
        ],
        IdentityEvent::UriUpdated { agent_id, new_uri, updated_by } => seq![
            Write::UpsertAgent(
                AgentUpsert {
                    agent_id,
                    chain_id: chain,
                    owner: None,
                    uri: Some(new_uri),
                    active: true,
                    block_number: m.block_number,
                    block_timestamp: m.block_timestamp,
                    tx_hash: m.tx_hash,
                },
            ),
            activity_write(chain, m, agent_id, ActivityData::UriUpdated { new_uri, updated_by }),
        ],
        IdentityEvent::MetadataSet { agent_id, key, value } => seq![
            Write::SetAgentField(AgentField { agent_id, chain_id: chain, key, value }),
            activity_write(chain, m, agent_id, ActivityData::MetadataSet { key, value }),
        ],
    }
}

/// The metadata read an identity event asks for: a registration or URI change
/// with a non-empty URI.
pub open spec fn identity_job(chain: i32, ev: IdentityEvent) -> Option<MetadataJob> {
    match ev {
        IdentityEvent::Registered { agent_id, uri, .. } => if uri@.len() > 0 {
            Some(MetadataJob { agent_id, chain_id: chain, uri })
        } else {
            None
        },
        IdentityEvent::UriUpdated { agent_id, new_uri, .. } => if new_uri@.len() > 0 {
            Some(MetadataJob { agent_id, chain_id: chain, uri: new_uri })
        } else {
            None
        },
        IdentityEvent::MetadataSet { .. } => None,
    }
}

fn pair(a: Write, b: Write) -> (r: Vec<Write>)
    ensures
        r@ == seq![a, b],
{
    let mut v: Vec<Write> = Vec::new();
    v.push(a);
    v.push(b);
    assert(v@ =~= seq![a, b]);
    v
}

fn single(a: Write) -> (r: Vec<Write>)
    ensures
        r@ == seq![a],
{
    let mut v: Vec<Write> = Vec::new();
    v.push(a);
    assert(v@ =~= seq![a]);
    v
}

fn job_for(agent_id: u64, chain_id: i32, uri: &String) -> (r: Option<MetadataJob>)
    ensures
        r == (if uri@.len() > 0 { Some(MetadataJob { agent_id, chain_id, uri: *uri }) } else { None::<MetadataJob> }),
{
    if uri.unicode_len() > 0 {
        Some(MetadataJob { agent_id, chain_id, uri: uri.clone() })
    } else {
        None
    }
}

/// Dispatches one identity event.
pub fn identity_writes(ctx: &ChainContext, meta: &LogMeta, ev: IdentityEvent) -> (d: Dispatch)
    ensures
        d.writes@ == identity_spec(ctx.chain_id, *meta, ev),
        d.job == identity_job(ctx.chain_id, ev),
{
    let chain = ctx.chain_id;
    match ev {
        IdentityEvent::Registered { agent_id, owner, uri } => {
            let job = job_for(agent_id, chain, &uri);
            let upsert = Write::UpsertAgent(
                AgentUpsert {
                    agent_id,
                    chain_id: chain,
                    owner: Some(owner.clone()),
                    uri: Some(uri.clone()),
                    active: true,
                    block_number: meta.block_number,
                    block_timestamp: meta.block_timestamp,
                    tx_hash: meta.tx_hash.clone(),
                },
            );
            let entry = activity(chain, meta, agent_id, ActivityData::Registered { owner, uri });
            Dispatch { writes: pair(upsert, entry), job }
        },
        IdentityEvent::UriUpdated { agent_id, new_uri, updated_by } => {
            let job = job_for(agent_id, chain, &new_uri);
            let upsert = Write::UpsertAgent(
                AgentUpsert {
                    agent_id,
                    chain_id: chain,
                    owner: None,
                    uri: Some(new_uri.clone()),
                    active: true,
                    block_number: meta.block_number,
                    block_timestamp: meta.block_timestamp,
                    tx_hash: meta.tx_hash.clone(),
                },
            );
            let entry = activity(chain, meta, agent_id, ActivityData::UriUpdated { new_uri, updated_by });
            Dispatch { writes: pair(upsert, entry), job }
        },
        IdentityEvent::MetadataSet { agent_id, key, value } => {
            let field = Write::SetAgentField(AgentField { agent_id, chain_id: chain, key: key.clone(), value: value.clone() });
            let entry = activity(chain, meta, agent_id, ActivityData::MetadataSet { key, value });
            Dispatch { writes: pair(field, entry), job: None }
        },
    }
}

/// An empty text stands for "not given".
pub open spec fn given(s: String) -> Option<String> {
    if s@.len() == 0 {
        None
    } else {
        Some(s)
    }
}

fn given_text(s: &String) -> (r: Option<String>)
    ensures
        r == given(*s),
{
    if s.unicode_len() == 0 {
        None
    } else {
        Some(s.clone())
    }
}

/// The writes of a reputation event: a new feedback is stored with its exact
/// value, a revocation marks it revoked, a response is stored once per event;
/// each adds an activity entry.
pub open spec fn reputation_spec(chain: i32, m: LogMeta, ev: ReputationEvent) -> Seq<Write> {
    match ev {
        ReputationEvent::NewFeedback {
            agent_id,
            client,
            feedback_index,
            value,
            value_decimals,
            tag1,
            tag2,
            endpoint,
            feedback_uri,
            feedback_hash,
        } => seq![
            Write::InsertFeedback(
                FeedbackRow {
                    agent_id,
                    chain_id: chain,
                    feedback_index,
                    client,
                    value,
                    value_decimals,
                    tag1: given(tag1),
                    tag2: given(tag2),
                    endpoint: given(endpoint),
                    feedback_uri: given(feedback_uri),
                    feedback_hash,
                    revoked: false,
                    block_number: m.block_number,
                    block_timestamp: m.block_timestamp,
                    tx_hash: m.tx_hash,
                },
            ),
            activity_write(
                chain,
                m,
                agent_id,
                ActivityData::NewFeedback { client, feedback_index, raw_value: value, value_decimals, tag1, tag2, endpoint, feedback_uri },
            ),
        ],
        ReputationEvent::FeedbackRevoked { agent_id, client, feedback_index } => seq![
            Write::RevokeFeedback(FeedbackKey { agent_id, chain_id: chain, feedback_index }),
            activity_write(chain, m, agent_id, ActivityData::FeedbackRevoked { client, feedback_index }),
        ],
        ReputationEvent::ResponseAppended { agent_id, client, feedback_index, responder, response_uri, response_hash } => seq![
            Write::AppendRecord(
                Record {
                    chain_id: chain,
                    tx_hash: m.tx_hash,
                    log_index: m.log_index,
                    block_number: m.block_number,
                    block_timestamp: m.block_timestamp,
                    body: RecordBody::Response { agent_id, feedback_index, responder, response_uri, response_hash },
                },
            ),
            activity_write(
                chain,
                m,
                agent_id,
                ActivityData::ResponseAppended { client, feedback_index, responder, response_uri, response_hash },
            ),
        ],
    }
}

/// Dispatches one reputation event.
pub fn reputation_writes(ctx: &ChainContext, meta: &LogMeta, ev: ReputationEvent) -> (r: Vec<Write>)
    ensures
        r@ == reputation_spec(ctx.chain_id, *meta, ev),
{
    let chain = ctx.chain_id;
    match ev {
        ReputationEvent::NewFeedback {
            agent_id,
            client,
            feedback_index,
            value,
            value_decimals,
            tag1,
            tag2,
            endpoint,
            feedback_uri,
            feedback_hash,
        } => {
            let row = FeedbackRow {
                agent_id,
                chain_id: chain,
                feedback_index,
                client: client.clone(),
                value,
                value_decimals,
                tag1: given_text(&tag1),
                tag2: given_text(&tag2),
                endpoint: given_text(&endpoint),
                feedback_uri: given_text(&feedback_uri),
                feedback_hash,
                revoked: false,
                block_number: meta.block_number,
                block_timestamp: meta.block_timestamp,
                tx_hash: meta.tx_hash.clone(),
            };
            let entry = activity(
                chain,
                meta,
                agent_id,
                ActivityData::NewFeedback { client, feedback_index, raw_value: value, value_decimals, tag1, tag2, endpoint, feedback_uri },
            );
            pair(Write::InsertFeedback(row), entry)
        },
        ReputationEvent::FeedbackRevoked { agent_id, client, feedback_index } => {
            let entry = activity(chain, meta, agent_id, ActivityData::FeedbackRevoked { client, feedback_index });
            pair(Write::RevokeFeedback(FeedbackKey { agent_id, chain_id: chain, feedback_index }), entry)
        },
        ReputationEvent::ResponseAppended { agent_id, client, feedback_index, responder, response_uri, response_hash } => {
            let response = Write::AppendRecord(
                Record {
                    chain_id: chain,
                    tx_hash: meta.tx_hash.clone(),
                    log_index: meta.log_index,
                    block_number: meta.block_number,
                    block_timestamp: meta.block_timestamp,
                    body: RecordBody::Response {
                        agent_id,
                        feedback_index,
                        responder: responder.clone(),
                        response_uri: response_uri.clone(),
                        response_hash: response_hash.clone(),
                    },
                },
            );
            let entry = activity(
                chain,
                meta,
                agent_id,
                ActivityData::ResponseAppended { client, feedback_index, responder, response_uri, response_hash },
            );
            pair(response, entry)
        },
    }
}

/// A character with ASCII upper case folded to lower case, as a code point.
pub open spec fn folded(c: char) -> u32 {
    if 'A' <= c <= 'Z' {
        (c as u32 + 32) as u32
    } else {
        c as u32
    }
}

/// Whether two addresses are the same, ignoring the case of hex letters.
pub open spec fn same_address(a: Seq<char>, b: Seq<char>) -> bool {
    a.len() == b.len() && forall|i: int| 0 <= i < a.len() ==> #[trigger] folded(a[i]) == folded(b[i])
}

fn fold_char(c: char) -> (r: u32)
    ensures
        r == folded(c),
{
    if 'A' <= c && c <= 'Z' {
        c as u32 + 32
    } else {
        c as u32
    }
}

/// Compares two addresses, ignoring the case of hex letters.
pub fn addresses_match(a: &str, b: &str) -> (r: bool)
    ensures
        r == same_address(a@, b@),
{
    let n = a.unicode_len();
    if n != b.unicode_len() {
        return false;
    }
    let mut i: usize = 0;
    while i < n
        invariant
            i <= n,
            n == a@.len(),
            n == b@.len(),
            forall|j: int| 0 <= j < i ==> #[trigger] folded(a@[j]) == folded(b@[j]),
        decreases n - i,
    {
        if fold_char(a.get_char(i)) != fold_char(b.get_char(i)) {
            return false;
        }
        i = i + 1;
    }
    true
}

/// The agent a token id names: the token id read as an integer, when it lies
/// in `0..=i64::MAX`, the range the store keeps agent ids in.
pub open spec fn token_agent(token_id: Seq<char>) -> Option<int> {
    integer_in_range(token_id, 0, i64::MAX as int)
}

/// Reads a token id as an agent id; `None` when it is not such an integer.
pub fn agent_of_token(token_id: &str) -> (r: Option<u64>)
    ensures
        r matches Some(a) ==> token_agent(token_id@) == Some(a as int),
        r is None ==> token_agent(token_id@) is None,
{
    match parse_integer(token_id, 0, i64::MAX as i128) {
        Some(v) => Some(v as u64),
        None => None,
    }
}

/// The entry a marketplace event adds to an agent's own feed: only when the
/// NFT is an agent of this chain's identity contract and its token id is an
/// agent id.
pub open spec fn agent_feed(ctx: ChainContext, m: LogMeta, nft_contract: Seq<char>, token_id: Seq<char>, data: ActivityData) -> Seq<Write> {
    if same_address(nft_contract, ctx.identity_address@) {
        match token_agent(token_id) {
            Some(a) => seq![activity_write(ctx.chain_id, m, a as u64, data)],
            None => Seq::empty(),
        }
    } else {
        Seq::empty()
    }
}

fn feed_entry(ctx: &ChainContext, meta: &LogMeta, nft_contract: &str, token_id: &str, data: ActivityData) -> (r: Option<Write>)
    ensures
        agent_feed(*ctx, *meta, nft_contract@, token_id@, data) == (match r {
            Some(w) => seq![w],
            None => Seq::<Write>::empty(),
        }),
{
    if !addresses_match(nft_contract, ctx.identity_address.as_str()) {
        return None;
    }
    match agent_of_token(token_id) {
        Some(a) => Some(activity(ctx.chain_id, meta, a, data)),
        None => None,
    }
}

fn with_entry(w: Write, entry: Option<Write>) -> (r: Vec<Write>)
    ensures
        r@ == seq![w] + match entry {
            Some(e) => seq![e],
            None => Seq::<Write>::empty(),
        },
{
    match entry {
        Some(e) => pair(w, e),
        None => single(w),
    }
}

pub open spec fn entity_key(kind: EntityKind, chain: i32, id: u64) -> EntityKey {
    EntityKey { kind, chain_id: chain, id }
}

pub open spec fn created(kind: EntityKind, chain: i32, id: u64, m: LogMeta, terms: Terms) -> Write {
    Write::UpsertEntity(
        EntityCreate {
            key: entity_key(kind, chain, id),
            terms,
            block_number: m.block_number,
            block_timestamp: m.block_timestamp,
            tx_hash: m.tx_hash,
        },
    )
}

pub open spec fn closed(
    kind: EntityKind,
    chain: i32,
    id: u64,
    target: Status,
    counterparty: Option<String>,
    amount: Option<String>,
    token_id: Option<String>,
) -> Write {
    Write::CloseEntity { key: entity_key(kind, chain, id), closing: Closing { target, counterparty, amount, token_id } }
}

/// The writes of a marketplace event other than a bundle listing. Creation
/// events upsert the entity; closing events close it (buyer, accepting seller or
/// winner, and amount recorded); price, bid and end-time events update it;
/// fee and payment-token events update the chain's settings. Listings, offers,
/// auctions and Dutch auctions of an agent NFT also add an entry to the agent's
/// feed; a sale does too, for the NFT of the stored listing (`listing`).
pub open spec fn market_spec(ctx: ChainContext, m: LogMeta, ev: MarketEvent, listing: Option<NftRef>) -> Seq<Write> {
    let chain = ctx.chain_id;
    match ev {
        MarketEvent::Listed { listing_id, seller, nft_contract, token_id, payment_token, price, expiry } => seq![
            created(
                EntityKind::Listing,
                chain,
                listing_id,
                m,
                Terms::Listing { seller, nft_contract, token_id, payment_token, price, expiry },
            ),
        ] + agent_feed(ctx, m, nft_contract@, token_id@, ActivityData::Listed { listing_id, seller, price, payment_token }),
        MarketEvent::Bought { listing_id, buyer, price } => seq![
            closed(EntityKind::Listing, chain, listing_id, Status::Sold, Some(buyer), Some(price), None),
        ] + match listing {
            Some(l) => agent_feed(ctx, m, l.nft_contract@, l.token_id@, ActivityData::Bought { listing_id, buyer, price }),
            None => Seq::empty(),
        },
        MarketEvent::ListingCancelled { listing_id } => seq![
            closed(EntityKind::Listing, chain, listing_id, Status::Cancelled, None, None, None),
        ],
        MarketEvent::ListingPriceUpdated { listing_id, new_price } => seq![
            Write::SetListingPrice { key: entity_key(EntityKind::Listing, chain, listing_id), price: new_price },
        ],
        MarketEvent::OfferMade { offer_id, offerer, nft_contract, token_id, payment_token, amount, expiry } => seq![
            created(
                EntityKind::Offer,
                chain,
                offer_id,
                m,
                Terms::Offer { offerer, nft_contract, token_id, payment_token, amount, expiry },
            ),
        ] + agent_feed(ctx, m, nft_contract@, token_id@, ActivityData::OfferMade { offer_id, offerer }),
        MarketEvent::OfferAccepted { offer_id, seller } => seq![
            closed(EntityKind::Offer, chain, offer_id, Status::Accepted, Some(seller), None, None),
        ],
        MarketEvent::OfferCancelled { offer_id } => seq![
            closed(EntityKind::Offer, chain, offer_id, Status::Cancelled, None, None, None),
        ],
        MarketEvent::CollectionOfferMade { offer_id, offerer, nft_contract, payment_token, amount, expiry } => seq![
            created(
                EntityKind::CollectionOffer,
                chain,
                offer_id,
                m,
                Terms::CollectionOffer { offerer, nft_contract, payment_token, amount, expiry },
            ),
        ],
        MarketEvent::CollectionOfferAccepted { offer_id, seller, token_id } => seq![
            closed(EntityKind::CollectionOffer, chain, offer_id, Status::Accepted, Some(seller), None, Some(token_id)),
        ],
        MarketEvent::CollectionOfferCancelled { offer_id } => seq![
            closed(EntityKind::CollectionOffer, chain, offer_id, Status::Cancelled, None, None, None),
        ],
        MarketEvent::AuctionCreated {
            auction_id,
            seller,
            nft_contract,
            token_id,
            payment_token,
            start_price,
            reserve_price,
            buy_now_price,
            start_time,
            end_time,
        } => seq![
            created(
                EntityKind::Auction,
                chain,
                auction_id,
                m,
                Terms::Auction {
                    seller,
                    nft_contract,
                    token_id,
                    payment_token,
                    start_price,
                    reserve_price,
                    buy_now_price,
                    start_time,
                    end_time,
                },
            ),
        ] + agent_feed(ctx, m, nft_contract@, token_id@, ActivityData::AuctionCreated { auction_id, seller }),
        MarketEvent::BidPlaced { auction_id, bidder, amount } => seq![
            Write::SetHighestBid { key: entity_key(EntityKind::Auction, chain, auction_id), bidder, amount },
            Write::AppendRecord(
                Record {
                    chain_id: chain,
                    tx_hash: m.tx_hash,
                    log_index: m.log_index,
                    block_number: m.block_number,
                    block_timestamp: m.block_timestamp,
                    body: RecordBody::Bid { auction_id, bidder, amount },
                },
            ),
        ],
        MarketEvent::AuctionSettled { auction_id, winner, amount } => seq![
            closed(EntityKind::Auction, chain, auction_id, Status::Ended, Some(winner), Some(amount), None),
        ],
        MarketEvent::AuctionCancelled { auction_id } => seq![
            closed(EntityKind::Auction, chain, auction_id, Status::Cancelled, None, None, None),
        ],
        MarketEvent::AuctionExtended { auction_id, new_end_time } => seq![
            Write::SetAuctionEnd { key: entity_key(EntityKind::Auction, chain, auction_id), end_time: new_end_time },
        ],
        MarketEvent::AuctionBuyNow { auction_id, buyer, price } => seq![
            closed(EntityKind::Auction, chain, auction_id, Status::Ended, Some(buyer), Some(price), None),
        ],
        MarketEvent::AuctionReserveNotMet { auction_id } => seq![
            closed(EntityKind::Auction, chain, auction_id, Status::ReserveNotMet, None, None, None),
        ],
        MarketEvent::DutchAuctionCreated {
            auction_id,
            seller,
            nft_contract,
            token_id,
            payment_token,
            start_price,
            end_price,
            start_time,
            end_time,
        } => seq![
            created(
                EntityKind::DutchAuction,
                chain,
                auction_id,
                m,
                Terms::DutchAuction { seller, nft_contract, token_id, payment_token, start_price, end_price, start_time, end_time },
            ),
        ] + agent_feed(ctx, m, nft_contract@, token_id@, ActivityData::DutchAuctionCreated { auction_id, seller }),
        MarketEvent::DutchAuctionBought { auction_id, buyer, price } => seq![
            closed(EntityKind::DutchAuction, chain, auction_id, Status::Sold, Some(buyer), Some(price), None),
        ],
        MarketEvent::DutchAuctionCancelled { auction_id } => seq![
            closed(EntityKind::DutchAuction, chain, auction_id, Status::Cancelled, None, None, None),
        ],
        MarketEvent::BundleListed { .. } => Seq::empty(),
        MarketEvent::BundleBought { bundle_id, buyer, price } => seq![
            closed(EntityKind::Bundle, chain, bundle_id, Status::Sold, Some(buyer), Some(price), None),
        ],
        MarketEvent::BundleListingCancelled { bundle_id } => seq![
            closed(EntityKind::Bundle, chain, bundle_id, Status::Cancelled, None, None, None),
        ],
        MarketEvent::PlatformFeeUpdated { new_fee } => seq![
            Write::SetMarketConfig { chain_id: chain, fee_bps: Some(new_fee), fee_recipient: None },
        ],
        MarketEvent::FeeRecipientUpdated { new_recipient } => seq![
            Write::SetMarketConfig { chain_id: chain, fee_bps: None, fee_recipient: Some(new_recipient) },
        ],
        MarketEvent::PaymentTokenAdded { token } => seq![
            Write::SetPaymentToken(PaymentToken { chain_id: chain, token, allowed: true, block_number: m.block_number }),
        ],
        MarketEvent::PaymentTokenRemoved { token } => seq![
            Write::SetPaymentToken(PaymentToken { chain_id: chain, token, allowed: false, block_number: m.block_number }),
        ],
    }
}

/// The write of a bundle listing: the bundle, with the items read from the
/// contract, or with no items when that read failed.
pub open spec fn bundle_listed(ctx: ChainContext, m: LogMeta, ev: MarketEvent, items: Option<BundleItems>, r: Seq<Write>) -> bool {
    ev matches MarketEvent::BundleListed { bundle_id, seller, item_count, payment_token, price, expiry } ==> {
        &&& r.len() == 1
        &&& r[0] matches Write::UpsertEntity(c)
        &&& c.key == entity_key(EntityKind::Bundle, ctx.chain_id, bundle_id)
        &&& c.block_number == m.block_number
        &&& c.block_timestamp == m.block_timestamp
        &&& c.tx_hash == m.tx_hash
        &&& c.terms matches Terms::Bundle { seller: s, nft_contracts: n, token_ids: t, payment_token: p, price: pr, expiry: e, item_count: ic }
        &&& s == seller && p == payment_token && pr == price && e == expiry && ic == item_count
        &&& match items {
            Some(b) => n == b.nft_contracts && t == b.token_ids,
            None => n@.len() == 0 && t@.len() == 0,
        }
    }
}

fn create(kind: EntityKind, chain: i32, id: u64, meta: &LogMeta, terms: Terms) -> (w: Write)
    ensures
        w == created(kind, chain, id, *meta, terms),
{
    Write::UpsertEntity(
        EntityCreate {
            key: EntityKey { kind, chain_id: chain, id },
            terms,
            block_number: meta.block_number,
            block_timestamp: meta.block_timestamp,
            tx_hash: meta.tx_hash.clone(),
        },
    )
}

fn close_write(
    kind: EntityKind,
    chain: i32,
    id: u64,
    target: Status,
    counterparty: Option<String>,
    amount: Option<String>,
    token_id: Option<String>,
) -> (w: Write)
    ensures
        w == closed(kind, chain, id, target, counterparty, amount, token_id),
{
    Write::CloseEntity { key: EntityKey { kind, chain_id: chain, id }, closing: Closing { target, counterparty, amount, token_id } }
}

/// Dispatches one marketplace event. `listing` is the stored listing a sale
/// refers to, if it was found; `bundle_items` the items read from the contract
/// for a bundle listing, if that read succeeded.
pub fn marketplace_writes(
    ctx: &ChainContext,
    meta: &LogMeta,
    ev: MarketEvent,
    listing: Option<NftRef>,
    bundle_items: Option<BundleItems>,
) -> (r: Vec<Write>)
    ensures
        !(ev is BundleListed) ==> r@ == market_spec(*ctx, *meta, ev, listing),
        bundle_listed(*ctx, *meta, ev, bundle_items, r@),
{
    let chain = ctx.chain_id;
    match ev {
        MarketEvent::Listed { listing_id, seller, nft_contract, token_id, payment_token, price, expiry } => {
            let entry = feed_entry(
                ctx,
                meta,
                nft_contract.as_str(),
                token_id.as_str(),
                ActivityData::Listed { listing_id, seller: seller.clone(), price: price.clone(), payment_token: payment_token.clone() },
            );
            let w = create(
                EntityKind::Listing,
                chain,
                listing_id,
                meta,
                Terms::Listing { seller, nft_contract, token_id, payment_token, price, expiry },
            );
            with_entry(w, entry)
        },
        MarketEvent::Bought { listing_id, buyer, price } => {
            let entry = match &listing {
                Some(l) => feed_entry(
                    ctx,
                    meta,
                    l.nft_contract.as_str(),
                    l.token_id.as_str(),
                    ActivityData::Bought { listing_id, buyer: buyer.clone(), price: price.clone() },
                ),
                None => None,
            };
            let w = close_write(EntityKind::Listing, chain, listing_id, Status::Sold, Some(buyer), Some(price), None);
            with_entry(w, entry)
        },
        MarketEvent::ListingCancelled { listing_id } => single(
            close_write(EntityKind::Listing, chain, listing_id, Status::Cancelled, None, None, None),
        ),
        MarketEvent::ListingPriceUpdated { listing_id, new_price } => single(
            Write::SetListingPrice { key: EntityKey { kind: EntityKind::Listing, chain_id: chain, id: listing_id }, price: new_price },
        ),
        MarketEvent::OfferMade { offer_id, offerer, nft_contract, token_id, payment_token, amount, expiry } => {
            let entry = feed_entry(
                ctx,
                meta,
                nft_contract.as_str(),
                token_id.as_str(),
                ActivityData::OfferMade { offer_id, offerer: offerer.clone() },
            );
            let w = create(
                EntityKind::Offer,
                chain,
                offer_id,
                meta,
                Terms::Offer { offerer, nft_contract, token_id, payment_token, amount, expiry },
            );
            with_entry(w, entry)
        },
        MarketEvent::OfferAccepted { offer_id, seller } => single(
            close_write(EntityKind::Offer, chain, offer_id, Status::Accepted, Some(seller), None, None),
        ),
        MarketEvent::OfferCancelled { offer_id } => single(
            close_write(EntityKind::Offer, chain, offer_id, Status::Cancelled, None, None, None),
        ),
        MarketEvent::CollectionOfferMade { offer_id, offerer, nft_contract, payment_token, amount, expiry } => single(
            create(
                EntityKind::CollectionOffer,
                chain,
                offer_id,
                meta,
                Terms::CollectionOffer { offerer, nft_contract, payment_token, amount, expiry },
            ),
        ),
        MarketEvent::CollectionOfferAccepted { offer_id, seller, token_id } => single(
            close_write(EntityKind::CollectionOffer, chain, offer_id, Status::Accepted, Some(seller), None, Some(token_id)),
        ),
        MarketEvent::CollectionOfferCancelled { offer_id } => single(
            close_write(EntityKind::CollectionOffer, chain, offer_id, Status::Cancelled, None, None, None),
        ),
        MarketEvent::AuctionCreated {
            auction_id,
            seller,
            nft_contract,
            token_id,
            payment_token,
            start_price,
            reserve_price,
            buy_now_price,
            start_time,
            end_time,
        } => {
            let entry = feed_entry(
                ctx,
                meta,
                nft_contract.as_str(),
                token_id.as_str(),
                ActivityData::AuctionCreated { auction_id, seller: seller.clone() },
            );
            let w = create(
                EntityKind::Auction,
                chain,
                auction_id,
                meta,
                Terms::Auction {
                    seller,
                    nft_contract,
                    token_id,
                    payment_token,
                    start_price,
                    reserve_price,
                    buy_now_price,
                    start_time,
                    end_time,
                },
            );
            with_entry(w, entry)
        },
        MarketEvent::BidPlaced { auction_id, bidder, amount } => {
            let bid = Write::AppendRecord(
                Record {
                    chain_id: chain,
                    tx_hash: meta.tx_hash.clone(),
                    log_index: meta.log_index,
                    block_number: meta.block_number,
                    block_timestamp: meta.block_timestamp,
                    body: RecordBody::Bid { auction_id, bidder: bidder.clone(), amount: amount.clone() },
                },
            );
            pair(
                Write::SetHighestBid { key: EntityKey { kind: EntityKind::Auction, chain_id: chain, id: auction_id }, bidder, amount },
                bid,
            )
        },
        MarketEvent::AuctionSettled { auction_id, winner, amount } => single(
            close_write(EntityKind::Auction, chain, auction_id, Status::Ended, Some(winner), Some(amount), None),
        ),
        MarketEvent::AuctionCancelled { auction_id } => single(
            close_write(EntityKind::Auction, chain, auction_id, Status::Cancelled, None, None, None),
        ),
        MarketEvent::AuctionExtended { auction_id, new_end_time } => single(
            Write::SetAuctionEnd { key: EntityKey { kind: EntityKind::Auction, chain_id: chain, id: auction_id }, end_time: new_end_time },
        ),
        MarketEvent::AuctionBuyNow { auction_id, buyer, price } => single(
            close_write(EntityKind::Auction, chain, auction_id, Status::Ended, Some(buyer), Some(price), None),
        ),
        MarketEvent::AuctionReserveNotMet { auction_id } => single(
            close_write(EntityKind::Auction, chain, auction_id, Status::ReserveNotMet, None, None, None),
        ),
        MarketEvent::DutchAuctionCreated {
            auction_id,
            seller,
            nft_contract,
            token_id,
            payment_token,
            start_price,
            end_price,
            start_time,
            end_time,
        } => {
            let entry = feed_entry(
                ctx,
                meta,
                nft_contract.as_str(),
                token_id.as_str(),
                ActivityData::DutchAuctionCreated { auction_id, seller: seller.clone() },
            );
            let w = create(
                EntityKind::DutchAuction,
                chain,
                auction_id,
                meta,
                Terms::DutchAuction { seller, nft_contract, token_id, payment_token, start_price, end_price, start_time, end_time },
            );
            with_entry(w, entry)
        },
        MarketEvent::DutchAuctionBought { auction_id, buyer, price } => single(
            close_write(EntityKind::DutchAuction, chain, auction_id, Status::Sold, Some(buyer), Some(price), None),
        ),
        MarketEvent::DutchAuctionCancelled { auction_id } => single(
            close_write(EntityKind::DutchAuction, chain, auction_id, Status::Cancelled, None, None, None),
        ),
        MarketEvent::BundleListed { bundle_id, seller, item_count, payment_token, price, expiry } => {
            let (nft_contracts, token_ids) = match bundle_items {
                Some(b) => (b.nft_contracts, b.token_ids),
                None => (Vec::new(), Vec::new()),
            };
            single(
                create(
                    EntityKind::Bundle,
                    chain,
                    bundle_id,
                    meta,
                    Terms::Bundle { seller, nft_contracts, token_ids, payment_token, price, expiry, item_count },
                ),
            )
        },
        MarketEvent::BundleBought { bundle_id, buyer, price } => single(
            close_write(EntityKind::Bundle, chain, bundle_id, Status::Sold, Some(buyer), Some(price), None),
        ),
        MarketEvent::BundleListingCancelled { bundle_id } => single(
            close_write(EntityKind::Bundle, chain, bundle_id, Status::Cancelled, None, None, None),
        ),
        MarketEvent::PlatformFeeUpdated { new_fee } => single(
            Write::SetMarketConfig { chain_id: chain, fee_bps: Some(new_fee), fee_recipient: None },
        ),
        MarketEvent::FeeRecipientUpdated { new_recipient } => single(
            Write::SetMarketConfig { chain_id: chain, fee_bps: None, fee_recipient: Some(new_recipient) },
        ),
        MarketEvent::PaymentTokenAdded { token } => single(
            Write::SetPaymentToken(PaymentToken { chain_id: chain, token, allowed: true, block_number: meta.block_number }),
        ),
        MarketEvent::PaymentTokenRemoved { token } => single(
            Write::SetPaymentToken(PaymentToken { chain_id: chain, token, allowed: false, block_number: meta.block_number }),
        ),
    }
}

/// The settings write of the startup read of the marketplace's fee settings:
/// the values that could be read, or nothing when neither could.
pub fn config_sync_write(chain_id: i32, fee_bps: Option<u32>, fee_recipient: Option<String>) -> (r: Option<Write>)
    ensures
        (fee_bps is None && fee_recipient is None) ==> r is None,
        !(fee_bps is None && fee_recipient is None) ==> r == Some(Write::SetMarketConfig { chain_id, fee_bps, fee_recipient }),
{
    if fee_bps.is_none() && fee_recipient.is_none() {
        None
    } else {
        Some(Write::SetMarketConfig { chain_id, fee_bps, fee_recipient })
    }
}

} // verus!
