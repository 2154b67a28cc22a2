//! Verified core of SISR: the decisions and text handling behind its
//! controller shortcuts, window and Steam actions, config file updates and
//! update checks.
pub mod text;
pub mod version;
pub mod updater;
pub mod json;
pub mod restart;
pub mod window;
pub mod input;
pub mod actions;
pub mod api;
pub mod tray;
pub mod display;
pub mod gui;
pub mod joystick_update;
