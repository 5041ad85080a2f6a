//! Temperature-driven fan-speed control for Thelio workstations.
//!
//! The crate holds the decision core of the controller: the step-function fan
//! curves, the max-over-window smoothing of noisy temperature samples, the
//! parser for the sensor channel's text protocol, the hardware classification
//! that selects a curve, and the per-cycle control step. All temperatures are
//! carried as centidegrees Celsius and all duty cycles as hundredths of a
//! percent, so the logic is exact integer arithmetic throughout. The I/O that
//! surrounds it — the serial transport, the sensor subprocess, the service
//! harness — stays outside and hands the core plain values.

pub mod actuate;
pub mod buffer;
pub mod classify;
pub mod control;
pub mod curve;
pub mod errors;
pub mod sample;
