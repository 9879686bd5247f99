//! A simulated asset market: fixed-point money, commission, price cache and
//! history, price synthesis, durable snapshots, settlement of market and limit
//! orders, and a bounded self-expiring collection.

pub mod commission;
pub mod engine;
pub mod fixed;
pub mod ledger;
pub mod limited_list;
pub mod limited_list_with_timeout;
pub mod orders;
pub mod price_cache;
pub mod queries;
pub mod requests;
pub mod settlement;
pub mod snapshot;
pub mod synthesis;
pub mod wire;
pub mod writes;
