//! Charging control for MediaTek Android devices.
//!
//! The crate holds every decision of the `rsc` daemon: when charging is cut
//! off and resumed, when the thermal delimiter is switched, what is written
//! to which kernel node in which order, what is logged and when the log is
//! rotated. Apart from the clock and the time zone, which it reads to date
//! the lines of the log, it performs no input or output: the program around
//! it reads and writes files, and hands the results in as plain values.

pub mod battery;
pub mod cleanup;
pub mod cli;
pub mod config;
pub mod daemon;
pub mod flips;
pub mod history;
pub mod laws;
pub mod logged;
pub mod logger;
pub mod logline;
pub mod mtk;
pub mod nodes;
pub mod path;
pub mod record;
pub mod run;
pub mod stats;
pub mod text;
pub mod uevent;
