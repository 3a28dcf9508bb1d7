//! Irrigation controller core: watering schedules, their persistence,
//! the runtime registry of active schedule timers, and the supervision
//! model that ties every long-running activity to a shutdown signal.

pub mod communication;
pub mod embedded;
pub mod mqtt;
pub mod schedule;
