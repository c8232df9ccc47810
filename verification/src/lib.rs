//! A verified CHIP-8 virtual machine core: machine state, fetch/decode/execute,
//! XOR sprite drawing with per-pixel wraparound, call stack, and timers.
//!
//! The host (window, keyboard, ROM storage, audio) lives outside this crate and
//! drives the machine through plain values: it loads a byte image, feeds the
//! 16-key latch, calls `emulate_cycle` and `tick_timers`, and presents the
//! framebuffer that `render` returns.

pub mod decode;
pub mod draw;
pub mod laws;
pub mod machine;
pub mod state;
