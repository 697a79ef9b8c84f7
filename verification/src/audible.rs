//! The Audible exporter: the API payload model, source-file grouping, and
//! the markdown rendering of an exported audiobook.

pub mod api;
pub mod export;
