//! A verified extraction and caching core for a kanji-reference scraper.
//!
//! The library parses HTML pages (brought into a plain node tree by a thin
//! trusted layer over an HTML parser) into structured kanji records, maintains
//! a JSON document cache with merge-write semantics, and answers point and
//! substring queries over an in-memory listing collection.
#![verifier::loop_isolation(false)]

pub mod detail;
pub mod dom;
pub mod json;
pub mod listing;
pub mod models;
pub mod store;
pub mod text;
