//! Raw port access, as a capability.
//!
//! The kernel talks to its devices through x86 I/O ports. Nothing can be
//! promised about what a port read returns or what a port write causes,
//! so the trait carries no contracts: everything proved above it holds
//! for every behaviour of the implementation. The real implementation
//! (privileged `in`/`out` instructions) lives outside the verified
//! library; test doubles script arbitrary device behaviour.

use vstd::prelude::*;

verus! {

/// Byte- and word-wide port reads and writes.
///
/// The methods take `&mut self` because touching a port is an observable
/// device interaction: a device model advances its state on every access.
pub trait PortIo: Sized {
    /// Write one byte to a port.
    fn outb(&mut self, port: u16, value: u8);

    /// Read one byte from a port.
    fn inb(&mut self, port: u16) -> u8;

    /// Read one 16-bit word from a port.
    fn inw(&mut self, port: u16) -> u16;
}

} // verus!
