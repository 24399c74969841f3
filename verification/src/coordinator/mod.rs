//! Coordinator node: a durable ledger of tasks, their events, attempts, edges and todos.
pub mod attempts;
pub mod audit;
pub mod chain;
pub mod compact;
pub mod documents;
pub mod edges;
pub mod effects;
pub mod handlers;
pub mod history;
pub mod interrupt;
pub mod laws;
pub mod ledger;
pub mod lineage;
pub mod listing_laws;
pub mod metrics_laws;
pub mod model;
pub mod paging;
pub mod payloads;
pub mod promises;
pub mod query;
pub mod reach;
pub mod reads;
pub mod recover;
pub mod recovery_laws;
pub mod render;
pub mod retry;
pub mod router;
pub mod rows;
pub mod served;
pub mod spine;
pub mod todo;
pub mod update;
pub mod vocab;
pub mod wire;
