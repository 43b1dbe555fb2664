//! Core logic of a button-driven USB-keyboard gadget: a cooperative
//! scheduler's timekeeping, deadline coalescing, edge latching, debouncing,
//! a single-slot broadcast mailbox, LED animation curves, keycode tables and
//! the branching-story navigation that the firmware types out.
//!
//! Everything here is pure logic over plain values; the hardware edges
//! (interrupt handlers, USB transport, PWM registers) live outside and feed
//! these state machines with timestamps and events.

pub mod click;
pub mod curve;
pub mod debounce;
pub mod input;
pub mod keyboard;
pub mod leds;
pub mod menu;
pub mod signal;
pub mod sleep;
pub mod story;
pub mod text;
pub mod time;
