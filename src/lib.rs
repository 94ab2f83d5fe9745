//! Sequential-consistency core of a slot indexer: finalized slot notifications
//! are checked for contiguity against a durable checkpoint, and gaps are filled
//! from a historical source before the checkpoint moves.

pub mod backfill;
pub mod consistency;
pub mod engine;
pub mod processor;
pub mod rpc;
pub mod storage;
pub mod types;
