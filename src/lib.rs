//! A cluster-wide, time-ordered 64-bit id generator: node membership,
//! multicast discovery messages, heartbeat and failover decisions, and the
//! per-node snowflake allocator.

mod clock;

pub mod address;
pub mod health;
pub mod membership;
pub mod multicast;
pub mod nodes;
pub mod options;
pub mod snowflake;
