//! Host-side embedded telemetry collector core.
//!
//! The collector attaches to a microcontroller through a debug probe, finds
//! the firmware's real-time trace ring buffer, and drains it into a log sink.
//! This crate holds the verified core of that pipeline: locating the control
//! block from a firmware image's symbol table, the adaptive polling state
//! machine, and the tolerant decode-and-split step that turns raw buffers
//! into log lines. Probe transport, file and journal I/O, and argument
//! parsing live outside, around this library.

pub mod config;
pub mod decode;
pub mod locate;
pub mod pipeline;
pub mod poll;
pub mod record;
