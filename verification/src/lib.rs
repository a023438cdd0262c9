//! Selector-driven extraction of records from HTML pages, and the
//! aggregation of one result per configured feed.

pub mod yaml;
pub mod html;
pub mod entry;
pub mod feed;
pub mod extract;
pub mod pipeline;
pub mod config;
