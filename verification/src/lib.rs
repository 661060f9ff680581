//! Verified core of a Tezos node's monitoring, RPC statistics and context-action channel.

pub mod hash_encoding;
pub mod monitor;
pub mod service;
pub mod service_stats;
pub mod str_map;
pub mod top_n;
pub mod channel;
