//! Batching of redundant "invoice changed" alert messages.
//!
//! The crate extracts a structured record (subscriber id, product code,
//! timestamp) from each raw notification text, and folds the records into a
//! digest keyed by subscriber identity and product, so that a subscriber is
//! alerted at most once per product while every occurrence is still recorded.

pub mod batch;
pub mod brain;
pub mod config;
pub mod email;
pub mod errors;
pub mod extract;
pub mod kvmap;
pub mod product;
pub mod text;
