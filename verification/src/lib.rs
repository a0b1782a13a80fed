//! AsBar, a Dynamic Island for Windows: the logic behind the island.
//!
//! The desktop shell (windows, tray, media bus, audio capture, network) reads
//! the world and performs actions; this library decides what they are, and
//! states and proves what it decides.

pub mod text;
pub mod browser;
pub mod media;
pub mod config;
pub mod art;
pub mod ai;
pub mod poller;
pub mod visualizer;
pub mod geometry;
pub mod shell;
pub mod autostart;
