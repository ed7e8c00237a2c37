//! Control logic of a hardware-in-the-loop test harness: the serial bootloader
//! handshake that identifies a target chip, and the channel scan that finds
//! which chip sits on which channel of a multi-target switch.
//!
//! The library decides; the caller performs. Each operation is a machine that
//! names the next thing to do on the transport or the switch and is told what
//! came of it.

pub mod error;
pub mod frame;
pub mod stboot;
pub mod switch;
pub mod probe;
pub mod scanner;
pub mod topology;
pub mod harness;

pub use crate::harness::{flash_firmware, run_and_connect, select_chip, shutdown};
pub use crate::stboot::Bootloader;
