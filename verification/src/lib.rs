//! Core of a price-oracle node: it ingests ledger events that report price
//! submissions for one trading pair, keeps a rolling window of observations
//! deduplicated by timestamp, computes a fixed-point time-weighted average
//! price over that window, and signs a digest of the result so that consumers
//! can verify the attestation against the node's public key.
//!
//! The surrounding process (network polling, the serving endpoints, task
//! wiring) lives outside this crate; everything here is verified.

pub mod bignum;
pub mod fetcher;
pub mod events;
pub mod processor;
pub mod signing;
pub mod status;
pub mod storage;
