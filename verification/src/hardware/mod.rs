//! Radio hardware: decisions and arithmetic around the driver calls.

pub mod device;
