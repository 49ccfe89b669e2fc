//! Programming SPI NOR flash behind an FTDI bridge in MPSSE mode.
//!
//! The bridge is reached through a [`vcp::ByteDevice`] that the caller supplies.
//! The library decides every byte it hands to that device. Its contracts speak of
//! ghost records that the library keeps of its own conduct: the bytes it wrote
//! and read, the GPIO values it asked for, every call it made to the device with
//! the answer it got, and the engine calls. They state framing, bracketing, pin
//! discipline, when each operation succeeds and the session's sequence of flash
//! commands. What the device does with the bytes is outside them.
//!
//! - [`mpsse`]: bridge command opcodes and frame encoders.
//! - [`status`]: driver status codes and the error type.
//! - [`vcp`]: the bridge port: SPI transfers, GPIO, device selection.
//! - [`flash`]: the SPI NOR command set, bracketed by chip-select.
//! - [`session`]: erase / program / verify planning and the session entry point.

pub mod mpsse;
pub mod status;
pub mod vcp;
pub mod flash;
pub mod session;
