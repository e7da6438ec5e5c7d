//! Read access to a chain of numbered blocks: a position resolver that turns
//! textual positions into block numbers, a bounded cache for finalized block
//! metadata, and cursor-based pagination over blocks and over the
//! transactions of one block.

pub mod api;
pub mod cache;
pub mod error;
pub mod pagination;
pub mod resolver;
pub mod store;
pub mod types;
