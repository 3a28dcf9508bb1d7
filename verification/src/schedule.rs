//! Watering schedules: their configuration store, persistence format,
//! command handling, and the timers that fire them.

pub mod command;
pub mod configuration;
pub mod persistence;
pub mod watering;
pub mod watering_task;

pub use self::command::{WateringConfigCommand, WateringConfigCommandListener};
pub use self::configuration::{ScheduleConfig, WateringScheduleConfig, WateringScheduleConfigs};
pub use self::watering::WateringScheduler;
