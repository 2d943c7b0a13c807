//! Telemetry that the robots send over the serial link.

pub mod robot_state;
