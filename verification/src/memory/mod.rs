//! Memory node: conversation turns and the persistent memory of each subject.
pub mod curator;
pub mod entries;
pub mod fault;
pub mod handlers;
pub mod laws;
pub mod qdrant;
pub mod router;
pub mod store;
pub mod totals;
pub mod wire;
