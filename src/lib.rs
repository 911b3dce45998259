//! Resolves a free-text item query against a catalog of game items and
//! summarises the vendor prices of the item found.
//!
//! `matcher` picks the catalog record closest to a query by edit distance;
//! `pricing` turns a detailed item record into a display-ready summary.

pub mod matcher;
pub mod pricing;
pub mod error;
