//! Watches particulate-matter sensors: resolves the configured policy of each
//! sensor, decodes what a sensor reports, holds the values against their
//! thresholds, and decides from the outcome and from the alarm state kept since
//! the run before whether a notification is due.
//!
//! Numbers are held as the bit patterns of 32-bit IEEE 754 numbers
//! ([`float::Float32`]); reading them from decimal text and writing them as such
//! is left to the caller.

pub mod check;
pub mod config;
pub mod float;
pub mod json;
pub mod measurement;
pub mod notify;
pub mod sensor;
pub mod state;
pub mod text;
pub mod wire;

pub use check::{check_measurement, CheckedMeasurement};
pub use config::Config;
pub use float::Float32;
pub use measurement::{MeasuredValue, Measurement};
pub use sensor::{Sensor, SensorId};
pub use state::{AlarmState, SensorState, SensorStates};
