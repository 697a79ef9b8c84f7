//! The Kindle exporter: configuration, HTML field extraction for books
//! and annotations, and the markdown rendering of an exported book.

pub mod annotation;
pub mod book;
pub mod client;
pub mod config;
pub mod export;
