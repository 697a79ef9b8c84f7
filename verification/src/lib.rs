//! Verified core of a personal reading-annotation exporter.
//!
//! The heart of the crate is the incremental reconciliation engine: it
//! compares a freshly observed library listing against a previously
//! persisted index and decides, per item, whether the item's detail data
//! must be fetched again, while keeping the index consistent across runs.
//! Around it stand the index store model, the decision-policy handling,
//! and the pure parts of the surrounding exporters: HTML field extraction,
//! name parsing, and markdown / TOML rendering.

pub mod audible;
pub mod cli;
pub mod config;
pub mod html;
pub mod index;
pub mod kindle;
pub mod laws;
pub mod notion;
pub mod prompt;
pub mod reconcile;
pub mod record;
pub mod store;
pub mod strutil;
