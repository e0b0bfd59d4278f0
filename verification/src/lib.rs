//! Discovery of decentralized-exchange factory contracts from historical
//! event logs.
//!
//! A caller names a set of factory kinds and an activity threshold. The
//! engine resolves each kind to the 32-byte signature of its pool-creation
//! event, tiles the chain's block range into bounded windows for the log
//! queries, aggregates per-address activity counts over the returned logs,
//! and keeps the addresses whose activity reaches the threshold. Fetching
//! the logs themselves is the caller's part; everything the engine decides
//! or computes is specified and verified here.

pub mod engine;
pub mod factory;
pub mod model;
pub mod windows;
