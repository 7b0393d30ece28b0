//! A sharded, in-process registry of client activity flags.
//!
//! Every client identifier is routed deterministically to one of a fixed
//! number of independent shards by a jump consistent hash, and each shard
//! owns a private map from client id to its state. Commands (add a client,
//! set its active flag, read its active flag) are applied to a shard one at
//! a time; a bounded command queue models the per-shard transport with
//! backpressure and an explicit close.

pub mod gateway;
pub mod protocol;
pub mod queue;
pub mod router;
pub mod service;
