//! Activities, their messages and the configuration that wires them together.

pub mod application_config;
pub mod camera_activity;
pub mod consistency;
pub mod mcap_activity;
pub mod mcap_log;
pub mod messages;
pub mod render_activity;
