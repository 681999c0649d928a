//! Extraction, filtering and ingest decisions for a classifieds vehicle watcher.

pub mod extract;
pub mod html;
pub mod listing;
pub mod number;
pub mod pipeline;
pub mod policy;
pub mod text;
