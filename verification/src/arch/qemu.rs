//! Leaving the emulator.

use vstd::prelude::*;
use crate::arch::io::{outb, PortWrite};

verus! {

/// The port of the emulator's exit device.
pub const EXIT_PORT: u16 = 0xF4;

/// The port write that ends the emulator with `code`.
pub fn exit(code: u8) -> (write: PortWrite)
    ensures
        write == (PortWrite { port: EXIT_PORT, value: code }),
{
    outb(EXIT_PORT, code)
}

/// The port write that ends the emulator with success.
pub fn exit_success() -> (write: PortWrite)
    ensures
        write == (PortWrite { port: EXIT_PORT, value: 0 }),
{
    exit(0)
}

/// The port write that ends the emulator with failure.
pub fn exit_failure() -> (write: PortWrite)
    ensures
        write == (PortWrite { port: EXIT_PORT, value: 1 }),
{
    exit(1)
}

} // verus!
