//! Control core of an HVAC unit controller: a bounded time-series store of
//! temperature samples, windowed aggregation over it, and a hysteresis policy
//! with a cooldown that turns the aggregate into actuator commands.

pub mod sample;
pub mod store;
pub mod aggregate;
pub mod policy;
pub mod cycle;
