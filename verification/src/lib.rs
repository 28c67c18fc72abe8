//! Verified core of a keypad that is both a USB numeric keypad and a
//! four-function calculator: debouncing, matrix scanning, mode dispatch and
//! the calculator state machine, with exact decimal arithmetic.

pub mod buffer;
pub mod calculator;
pub mod debounce;
pub mod decimal;
pub mod display;
pub mod file_system;
pub mod hid;
pub mod hotkeys;
pub mod keyboard;
pub mod keypad;
pub mod modes;
pub mod numpad;
