//! The serial port that carries the kernel log.

use vstd::prelude::*;
use crate::arch::io::{outb, PortWrite};

verus! {

pub const COM1_PORT: u16 = 0x3F8;

pub const DATA: u16 = COM1_PORT;

pub const INTERRUPT_ENABLE: u16 = COM1_PORT + 1;

pub const FIFO_CONTROL: u16 = COM1_PORT + 2;

pub const LINE_CONTROL: u16 = COM1_PORT + 3;

pub const MODEM_CONTROL: u16 = COM1_PORT + 4;

pub const LINE_STATUS: u16 = COM1_PORT + 5;

/// The bit of the line status that says the transmitter is empty.
pub const TRANSMIT_EMPTY: u8 = 0x20;

/// The port writes that set the port up: interrupts off, 38400 baud, eight
/// bits without parity and one stop bit, FIFOs on and cleared, modem lines set.
pub open spec fn spec_init_writes() -> Seq<PortWrite> {
    seq![
        PortWrite { port: INTERRUPT_ENABLE, value: 0x00 },
        PortWrite { port: LINE_CONTROL, value: 0x80 },
        PortWrite { port: DATA, value: 0x03 },
        PortWrite { port: INTERRUPT_ENABLE, value: 0x00 },
        PortWrite { port: LINE_CONTROL, value: 0x03 },
        PortWrite { port: FIFO_CONTROL, value: 0xC7 },
        PortWrite { port: MODEM_CONTROL, value: 0x0B },
    ]
}

/// The port writes that set the serial port up.
pub fn init() -> (writes: Vec<PortWrite>)
    ensures
        writes@ == spec_init_writes(),
{
    let mut writes: Vec<PortWrite> = Vec::new();
    writes.push(outb(INTERRUPT_ENABLE, 0x00));
    writes.push(outb(LINE_CONTROL, 0x80));
    writes.push(outb(DATA, 0x03));
    writes.push(outb(INTERRUPT_ENABLE, 0x00));
    writes.push(outb(LINE_CONTROL, 0x03));
    writes.push(outb(FIFO_CONTROL, 0xC7));
    writes.push(outb(MODEM_CONTROL, 0x0B));
    assert(writes@ =~= spec_init_writes());
    writes
}

/// What goes over the wire for one byte of the log: a line feed is sent
/// after a carriage return.
pub open spec fn spec_wire_byte(byte: u8) -> Seq<u8> {
    if byte == 0x0A {
        seq![0x0Du8, 0x0Au8]
    } else {
        seq![byte]
    }
}

/// What goes over the wire for the bytes of the log.
pub open spec fn spec_wire(bytes: Seq<u8>) -> Seq<u8>
    decreases bytes.len(),
{
    if bytes.len() == 0 {
        Seq::empty()
    } else {
        spec_wire(bytes.drop_last()) + spec_wire_byte(bytes.last())
    }
}

/// Appends to `wire` what goes over the wire for `byte`.
pub fn write_byte(wire: &mut Vec<u8>, byte: u8)
    ensures
        final(wire)@ == old(wire)@ + spec_wire_byte(byte),
{
    if byte == 0x0A {
        wire.push(0x0D);
    }
    wire.push(byte);
    assert(wire@ =~= old(wire)@ + spec_wire_byte(byte));
}

/// Tells from the line status whether the next byte may be sent.
pub fn is_transmit_empty(line_status: u8) -> (empty: bool)
    ensures
        empty <==> line_status & TRANSMIT_EMPTY != 0,
{
    line_status & TRANSMIT_EMPTY != 0
}

/// The port write that sends `byte`, once the transmitter is empty.
pub fn transmit(byte: u8) -> (write: PortWrite)
    ensures
        write == (PortWrite { port: DATA, value: byte }),
{
    outb(DATA, byte)
}

} // verus!
