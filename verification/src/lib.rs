//! A small text-mode system: a resident FAT16-style file store, a line editor
//! working on it, and the keyboard-driven state machine that drives both.
//!
//! Every component is a plain value. Hardware (the text page, the keyboard
//! port, the cycle counter) stays outside: callers pass scancodes in and copy
//! the [`vga::Screen`] out.

pub mod editor;
pub mod fs;
pub mod kernel_main;
pub mod keyboard;
pub mod shims;
pub mod vga;
