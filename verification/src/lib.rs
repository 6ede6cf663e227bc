//! A URL latency and availability monitor, as a verified library.
//!
//! The library holds the decisions of the monitor: how a probe result is
//! rendered, when it counts as an alert, what goes to the console and to the
//! log file, and what the monitor loop does next. Performing the probe,
//! printing, writing the file and sleeping are left to the caller.

pub mod alert;
pub mod csv;
pub mod elapsed;
pub mod json;
pub mod message;
pub mod monitor;
pub mod run;
pub mod sink;
pub mod status;
pub mod text;
pub mod timestamp;
