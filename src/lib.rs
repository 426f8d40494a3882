//! A console reader for the RSS feeds of a fixed set of news categories.
//!
//! The library holds the category table, the markup stripping applied to
//! article descriptions, the rendering of a parsed feed and the decisions of
//! the single-shot console session. Network and console I/O stay with the
//! caller, which hands the library plain values.
pub mod error;
pub mod feed;
pub mod laws;
pub mod reader;
pub mod registry;
pub mod selection;
pub mod session;
pub mod text;
