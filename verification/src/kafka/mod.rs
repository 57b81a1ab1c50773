//! Kafka protocol awareness for Ockam portals: watching metadata requests
//! and responses, and forwarding the first message of a connection.

pub mod wire;
pub mod metadata_interceptor;
pub mod outlet;
pub mod portal_listener;
