//! Process Watcher: the logic of a terminal system monitor.
//!
//! The library reads the text that Linux exposes under `/proc`, keeps the
//! rolling histories and caches the monitor needs between samples, orders the
//! process table (as a list or as a parent/child tree) and decides how the
//! user interface reacts to keys and mouse clicks.

pub mod app;
pub mod labels;
pub mod laws;
mod models;
pub mod ordering;
pub mod parser;
pub mod search;
pub mod text;

pub use models::{
    ring_push, CpuUsageState, ProcessCpuTime, ProcessHistory, ProcessInfo, ProcessStatus, RingBuffer,
};
