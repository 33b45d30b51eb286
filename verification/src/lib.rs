//! A verified CHIP-8 interpreter core: instruction decoding, the
//! fetch-decode-execute state machine, timers, and the XOR sprite-blit
//! algorithm with collision detection.
//!
//! The host (window, keyboard, file loading) lives outside this crate and
//! talks to the engine through the `PixelHandler` and `KeyboardHandler`
//! capabilities.

pub mod insts;
pub mod laws;
pub mod state;
pub mod vm;
