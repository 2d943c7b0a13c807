//! The state behind the tool's panels.

pub mod panel_id;
pub mod window_config;
pub mod console;
pub mod graph;
pub mod raw_serial;
pub mod field_playback;
pub mod raw_playback;
pub mod field;
pub mod serial_settings;
pub mod window_layouts;
