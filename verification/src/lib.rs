//! A reputation ledger for marketplaces, with verified contracts.
//!
//! Buyers rate sellers, articles and shipping. The ledger stores each rating
//! once, indexes it by transaction and by entity, derives a score for each
//! entity, and lets only the owner of a context write into it.
//!
//! - `average`: a running average kept as a sum and a count.
//! - `registry`: which caller owns which context.
//! - `state`: the mathematical model of the ledger and of its operations.
//! - `ledger`: the ledger itself, specified against the model.
//! - `laws`, `counting`: what holds of every ledger.
//! - `marketplace`: the rating of a purchase as three ratings of the ledger.
//! - `market`, `market_laws`: reviews that can be replaced and deleted, with
//!   averages that follow them, and what holds of every such market.
//! - `calculator`: strategies for computing scores from child scores.
//! - `contract_registry`, `disputes`, `reputation`: the bookkeeping around
//!   the ledger.
//! - `pair_map`: the map under composite keys that the stores are built on.
//! - `types`: identifiers, records, errors and notifications.
//!
//! Nothing here talks to a host. The caller's identity, the time and the
//! block number are arguments, and notifications are return values.

pub mod average;
pub mod calculator;
pub mod contract_registry;
pub mod counting;
pub mod disputes;
pub mod laws;
pub mod ledger;
pub mod market;
pub mod market_laws;
pub mod marketplace;
pub mod pair_map;
pub mod registry;
pub mod reputation;
pub mod state;
pub mod types;
