//! The kernel log: bytes for the serial port.

use vstd::prelude::*;
use vstd::string::StringSliceAdditionalSpecFns;
use crate::arch::io::PortWrite;
use crate::arch::serial::{spec_init_writes, spec_wire, spec_wire_byte};

verus! {

/// The port writes that set the log's serial port up.
pub fn init() -> (writes: Vec<PortWrite>)
    ensures
        writes@ == spec_init_writes(),
{
    crate::arch::serial::init()
}

/// What goes over the wire for `bytes`.
pub fn write_bytes(bytes: &[u8]) -> (wire: Vec<u8>)
    ensures
        wire@ == spec_wire(bytes@),
{
    let mut wire: Vec<u8> = Vec::new();
    let mut i: usize = 0;
    while i < bytes.len()
        invariant
            i <= bytes@.len(),
            wire@ == spec_wire(bytes@.subrange(0, i as int)),
        decreases bytes@.len() - i,
    {
        assert(bytes@.subrange(0, i + 1).drop_last() =~= bytes@.subrange(0, i as int));
        crate::arch::serial::write_byte(&mut wire, bytes[i]);
        i += 1;
    }
    assert(bytes@.subrange(0, bytes@.len() as int) =~= bytes@);
    wire
}

/// What goes over the wire for the text `s`.
pub fn write_str(s: &str) -> (wire: Vec<u8>)
    ensures
        wire@ == spec_wire(s.spec_bytes()),
{
    write_bytes(s.as_bytes())
}

/// What goes over the wire for the text `s` and the end of its line.
pub fn writeln(s: &str) -> (wire: Vec<u8>)
    ensures
        wire@ == spec_wire(s.spec_bytes()) + seq![0x0Du8, 0x0Au8],
{
    let mut wire = write_str(s);
    crate::arch::serial::write_byte(&mut wire, 0x0A);
    wire
}

/// Wiring bytes one after the other is wiring them together.
pub proof fn lemma_wire_concat(a: Seq<u8>, b: Seq<u8>)
    ensures
        spec_wire(a + b) == spec_wire(a) + spec_wire(b),
    decreases b.len(),
{
    if b.len() == 0 {
        assert(a + b =~= a);
        assert(spec_wire(a) + spec_wire(b) =~= spec_wire(a));
    } else {
        assert((a + b).drop_last() =~= a + b.drop_last());
        lemma_wire_concat(a, b.drop_last());
        assert(spec_wire(a + b) =~= spec_wire(a) + spec_wire(b));
    }
}

} // verus!
