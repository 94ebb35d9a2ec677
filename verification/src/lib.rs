//! Drive a graphical application through natural-language descriptions of UI
//! elements: capture a screenshot, ask a vision model where an element is,
//! convert the model's percentage-space answer to a pixel, and inject a mouse
//! or keyboard action there.
//!
//! This crate holds the verified core: the free-text coordinate and
//! visible-text parsers, exact percentage-to-pixel conversion, the protocol
//! payload builders, the session lifecycle state machine, and the
//! bounded-retry decision logic. The unverified I/O shell (HTTP, the
//! container engine, timers) drives these functions from outside.

pub mod coord_parse;
pub mod daemon;
pub mod daemon_output;
pub mod decimal;
pub mod digits;
pub mod errors;
pub mod ids;
pub mod payload;
pub mod retry;
pub mod session;
pub mod strutil;
pub mod text_parse;
pub mod virtual_machine;
pub mod vision;
