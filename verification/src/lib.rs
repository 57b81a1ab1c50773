//! Routing, rendezvous and Kafka metadata-interception logic of an Ockam node,
//! with the behaviour of each operation stated as a contract and proved.

pub mod route;
pub mod rendezvous;
pub mod message;
pub mod kafka;
pub mod decimal;
pub mod hole_punching;
pub mod lease;
