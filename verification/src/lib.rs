//! Protocol logic, measurement history and display scheduling for a CO2
//! monitor built around the Sensirion SCD30 sensor.

pub mod checksum;
pub mod frame;
pub mod history;
pub mod monitor;
pub mod plot;
pub mod refresh;
pub mod scd30;
