//! Port I/O as values: what is to be written to which port.
//!
//! The library decides what goes to the ports; whoever runs it on the
//! machine sends the writes, in order, and hands back what it read.

use vstd::prelude::*;

verus! {

/// One byte to write to a port.
#[derive(Copy, Clone, Debug, PartialEq, Eq, Structural)]
pub struct PortWrite {
    pub port: u16,
    pub value: u8,
}

/// The write of `value` to `port`.
pub fn outb(port: u16, value: u8) -> (write: PortWrite)
    ensures
        write == (PortWrite { port, value }),
{
    PortWrite { port, value }
}

} // verus!
