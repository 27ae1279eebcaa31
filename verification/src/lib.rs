//! Verified core of a harness that exercises shell tab-completion by driving
//! real shells under a pseudo-terminal, or an embedded scripting engine, and
//! capturing the text that would appear on a terminal.
//!
//! This crate holds the logic that can be stated and proved: the viewport
//! value, the per-shell configuration and registration planning, the terminal
//! capture (escape-sequence parsing behind a trusted boundary, rendering
//! proved), the output-quiescence protocol's decisions, and the transcript
//! formatter for the embedded-engine path. Process spawning and file I/O are
//! left to an unverified shell around this library.

pub mod error;
pub mod nu;
pub mod render;
pub mod shells;
pub mod screen;
pub mod term;
pub mod watch;
