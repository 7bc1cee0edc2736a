//! Fixed-window GPU telemetry model and dashboard geometry.
//!
//! The crate keeps a rolling thirty-sample history per metric and per device,
//! derives chart data and axis bounds from it, and divides a terminal canvas
//! into one row per device with two charts each.

pub mod dashboard;
pub mod layout;
pub mod window;
