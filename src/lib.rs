//! Multi-room broadcast chat core: room presence, inbound message
//! filtering, fan-out through a broadcast channel, delivery metrics and
//! the ping/pong heartbeat.
//!
//! Beside it stand three small request computations of the same service:
//! baking from a recipe, pagination of a list, and reindeer strength sums.

pub mod channel;
pub mod message;
pub mod registry;
pub mod heartbeat;
pub mod metrics;
pub mod recipe;
pub mod pagination;
pub mod reindeer;
