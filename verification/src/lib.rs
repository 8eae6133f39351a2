//! Verified core of the ShopWire agent-first shoe catalog API: cache keys,
//! the built-in fallback catalog, database query plans, and the decision
//! steps of the search and ingestion endpoints.
pub mod cache;
pub mod catalog;
pub mod handlers;
pub mod models;
pub mod repository;
pub mod text;
