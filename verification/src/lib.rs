//! Device-triggered display-switch pipeline.
//!
//! Watches for the arrival of a configured USB device and, on a matching
//! arrival event, wakes the attached displays and switches every enumerable
//! display to a configured DDC/CI input selector.

pub mod app;
pub mod display_control;
pub mod input_source;
