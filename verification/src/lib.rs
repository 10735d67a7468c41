//! Verified core of a terminal monitor for software-defined radio hardware.

pub mod clock;
pub mod config;
pub mod dsp;
pub mod hardware;
pub mod history;
pub mod palette;
pub mod parse;
pub mod state;
pub mod tasks;
pub mod text;
pub mod theme;
pub mod ui;
