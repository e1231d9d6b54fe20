//! A small, clustered, in-memory key-value datastore.
//!
//! Each node of a cluster holds an independent copy of a shared keyspace.
//! A client issues a command to any node; the node applies it locally and,
//! when the command is mutating and client-originated, fans it out to its
//! replica set with the replication flag set, so that replicas do not
//! re-fan-out.

pub mod commands;
pub mod data_storage;
pub mod laws;
pub mod model;
pub mod render;
pub mod shell;
pub mod passport;
pub mod peer;
pub mod req_resp_codec;
pub mod sphagnum;
pub mod sprout;
pub mod string_store;
