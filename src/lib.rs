//! Decision logic of an exchange maintenance keeper: token grouping, event-queue
//! draining, instruction descriptors, per-tick loop steps and the listing watchdog.

pub mod address;
pub mod drain;
pub mod topology;
pub mod grouping;
pub mod plan;
pub mod schedule;
