//! Sensors: their types, matching against a host, local file metadata,
//! cache eviction and the sensor-list cache.

pub mod eviction;
pub mod loading;
pub mod matching;
pub mod metadata;
pub mod store;
pub mod types;

pub use types::{Sensor, SensorMeta, SensorType};
