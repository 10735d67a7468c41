//! Pure pieces of the terminal panels: formatting, gauges, layout arithmetic.

pub mod command_rail;
pub mod device_selector;
pub mod footer;
pub mod header;
pub mod iq_constellation;
pub mod iq_diagnostics;
pub mod lab_chrome;
pub mod log;
pub mod micro_common;
pub mod observer;
pub mod overlay;
pub mod panel;
pub mod rf_calc;
pub mod rf_chain;
pub mod spectrum;
pub mod timing_diagnostics;
pub mod timing_vitals;
pub mod waterfall;
