//! A verified core for a small hobby kernel and its terminal: bounded slicing,
//! interrupt dispatch, the clock, the debug console, boot-time directory scans,
//! and the terminal's command interpreter.

pub mod slicing;
pub mod text;
pub mod shell;
pub mod commands;
pub mod interrupts;
pub mod clock;
pub mod console;
pub mod boot;
