//! Core of a monitor for a 16-bit parallel address bus.
//!
//! A hardware strobe raises an edge latch from interrupt context; the main
//! loop polls the latch, samples the 16 bus lines, and renders one report
//! line (the sampled bits, a space, the four-digit hexadecimal address).
//! Everything here is pure logic over plain values; pin reads, the interrupt
//! handler and the serial port live outside this crate.

pub mod device;
pub mod latch;
pub mod reporter;
pub mod sampler;
