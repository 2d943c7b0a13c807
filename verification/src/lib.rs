//! Verified core of a ground-station tool for soccer robots: the robot
//! telemetry model, the text handling of the serial feed and of the
//! console, and the state kept by the tool's panels.

pub mod app;
pub mod data;
pub mod serial;
pub mod text;
pub mod widgets;
pub mod windows;

