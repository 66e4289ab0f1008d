//! A broker-side codec and query engine for a Kafka-compatible wire protocol.
//!
//! The crate decodes request frames, reads a KRaft-style cluster metadata log
//! and encodes the matching responses. Every function is a pure function on
//! bytes and values; sockets and files belong to the caller.

pub mod api;
pub mod metadata_log;
pub mod primitives;
pub mod reader;
pub mod round_trip;
pub mod server;
