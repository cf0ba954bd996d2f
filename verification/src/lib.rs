//! Core of a local desktop search backend: per-scope full-text index
//! lifecycle, crawl planning with skip rules, debounced filesystem-event
//! handling, federated query ranking, and icon resolution.
//!
//! Persistent indexing and icon decoding are delegated to outside crates
//! behind a small set of trusted wrappers; every decision made around those
//! calls is verified.

pub mod crawl;
pub mod dedup;
pub mod engine;
pub mod icon;
pub mod rules;
pub mod scope;
pub mod score;
pub mod store;
pub mod text;
pub mod watch;
