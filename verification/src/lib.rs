//! Download engine: segmented resumable fetching, a priority download
//! scheduler and TTL-bound caches, with the decisions stated as contracts.

pub mod assembly;
pub mod cache;
pub mod content_hash;
pub mod deps;
pub mod download_cache;
pub mod download_manager;
pub mod error;
pub mod fetcher;
pub mod file_system;
pub mod format;
pub mod format_selector;
pub mod platform;
pub mod resume;
pub mod segments;
pub mod table;
pub mod text;
pub mod transfer;
