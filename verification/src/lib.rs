//! The write-command pipeline of a partitioned, replicated key-value store.
//!
//! Client writes are batched on the leader, handed to the replicated log as
//! one payload per batch, and applied to local storage exactly once when the
//! log delivers them back in index order.

pub mod action;
pub mod apply;
pub mod apply_laws;
pub mod batch;
pub mod canonical;
pub mod channel;
pub mod control;
pub mod effect;
pub mod engine;
pub mod entries;
pub mod errors;
pub mod keys;
pub mod laws;
pub mod metadata;
pub mod parse;
pub mod peer;
pub mod proposals;
pub mod request;
pub mod roundtrip;
pub mod size;
pub mod sst;
pub mod wire;
pub mod write_op;
