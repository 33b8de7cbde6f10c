//! Core logic of an on-chain event indexer: an idempotent ledger fed by
//! decoded chain events, a dual-path signature authorization engine, and a
//! guarded, encrypting in-memory key custodian.

pub mod amounts;
pub mod authorize;
pub mod config;
pub mod custody;
pub mod errors;
pub mod events;
pub mod ledger;
pub mod rows;
pub mod servers;
pub mod signing;
pub mod text;
pub mod tiers;
