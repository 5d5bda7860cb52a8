//! Indexing core for an agent-identity, reputation and NFT-marketplace chain
//! indexer: block-range scheduling with a resumable cursor, event dispatch into
//! idempotent store writes, marketplace status machines, exact decimal amounts,
//! agent metadata resolution, and the query-parameter rules of the read API.

pub mod blocktimes;
pub mod cycle;
pub mod decimal;
pub mod events;
pub mod ids;
pub mod metadata;
pub mod params;
pub mod schedule;
pub mod scores;
pub mod status;
pub mod store;
mod text;
