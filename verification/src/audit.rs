//! The audit trail: its entries, the index that keeps them, the blobs that
//! the index lives in, and the agent that forwards entries to it.

pub mod agent;
pub mod directory;
pub mod entry;
pub mod index;
pub mod messages;
pub mod record;
