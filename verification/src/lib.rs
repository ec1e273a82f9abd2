//! Verified core of a GitHub contribution-statistics library.
//!
//! The crate models the pagination, query-partitioning and aggregation
//! engine that reduces paged search results from a remote code-hosting
//! API into deduplicated, sorted, bounded result sets.  Network transport
//! and rendering to output devices live outside the library; the library
//! receives plain values and hands plain values back.

pub mod contributed;
pub mod created;
pub mod errors;
pub mod outside;
pub mod pagination;
pub mod partition;
pub mod queries;
pub mod render;
pub mod sequences;
pub mod text;
pub mod types;
