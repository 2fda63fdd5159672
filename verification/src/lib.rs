//! Capability-style hardware abstraction for blocking SPI buses and digital
//! output pins.
//!
//! Peripheral drivers are written against the capability traits of this crate
//! instead of a specific microcontroller's register set; a board-support layer
//! supplies the concrete implementations.  The verified core is the blocking
//! bulk-transfer adapter layer (multi-word `transfer` / `write` built from a
//! single-word full-duplex primitive) and the chip-select-managed wrapper that
//! brackets every bus operation with pin assert/deassert.

pub mod blocking;
pub mod digital;
pub mod mock;
pub mod spi;
