//! Sampling, aggregation, scheduling and record-keeping core of a desktop
//! system monitor. Raw provider readings go in as plain values; snapshots,
//! state transitions, tick plans and log records come out.

pub mod models;
pub mod sampler;
pub mod monitor;
pub mod text;
pub mod logger;
pub mod clock;
pub mod display;
