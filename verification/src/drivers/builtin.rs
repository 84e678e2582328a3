//! The devices that need no hardware: the sink and the source of zeros.

use vstd::prelude::*;
use crate::drivers::console::Console;
use crate::drivers::{
    spec_register_builtin, CharDevice, CharDeviceId, Driver, DriverError, DriverKind,
    DriverRegistry,
};
use crate::mem::heap::KernelAllocator;

verus! {

/// Swallows what is written to it and has nothing to read.
pub struct NullDevice;

/// Swallows what is written to it and reads as zeros without end.
pub struct ZeroDevice;

impl Driver for NullDevice {
    fn name(&self) -> (name: &'static str)
        ensures
            name@ == "null"@,
    {
        "null"
    }

    fn kind(&self) -> (kind: DriverKind)
        ensures
            kind == DriverKind::Char,
    {
        DriverKind::Char
    }

    fn init(&mut self) -> (res: Result<(), DriverError>)
        ensures
            res is Ok,
    {
        Ok(())
    }

    fn shutdown(&mut self) {
    }
}

impl CharDevice for NullDevice {
    fn read(&mut self, buf: &mut [u8]) -> (res: Result<usize, DriverError>)
        ensures
            res == Ok::<usize, DriverError>(0),
            final(buf)@ == old(buf)@,
    {
        Ok(0)
    }

    fn write(&mut self, buf: &[u8]) -> (res: Result<usize, DriverError>)
        ensures
            res == Ok::<usize, DriverError>(buf@.len() as usize),
    {
        Ok(buf.len())
    }
}

impl Driver for ZeroDevice {
    fn name(&self) -> (name: &'static str)
        ensures
            name@ == "zero"@,
    {
        "zero"
    }

    fn kind(&self) -> (kind: DriverKind)
        ensures
            kind == DriverKind::Char,
    {
        DriverKind::Char
    }

    fn init(&mut self) -> (res: Result<(), DriverError>)
        ensures
            res is Ok,
    {
        Ok(())
    }

    fn shutdown(&mut self) {
    }
}

impl CharDevice for ZeroDevice {
    fn read(&mut self, buf: &mut [u8]) -> (res: Result<usize, DriverError>)
        ensures
            res == Ok::<usize, DriverError>(old(buf)@.len() as usize),
            forall|i: int| 0 <= i < final(buf)@.len() ==> final(buf)@[i] == 0,
    {
        let len = buf.len();
        let mut i: usize = 0;
        while i < len
            invariant
                i <= len,
                len == buf@.len(),
                forall|j: int| 0 <= j < i ==> buf@[j] == 0,
            decreases len - i,
        {
            buf[i] = 0;
            i += 1;
        }
        Ok(len)
    }

    fn write(&mut self, buf: &[u8]) -> (res: Result<usize, DriverError>)
        ensures
            res == Ok::<usize, DriverError>(buf@.len() as usize),
    {
        Ok(buf.len())
    }
}

/// Starts and registers the console, the null device and the zero device, in
/// this order. A device that fails is left out; the others are still tried.
/// Returns how each of the three fared.
pub fn register(registry: &mut DriverRegistry, heap: &mut KernelAllocator, console: &mut Console) -> (report:
    (Result<(), DriverError>, Result<(), DriverError>, Result<(), DriverError>))
    requires
        old(registry).wf(),
        old(heap).wf(),
    ensures
        final(registry).wf(),
        final(heap).wf(),
        final(heap).start == old(heap).start,
        final(heap).size == old(heap).size,
        old(console).wf() ==> final(console).wf() && final(console).state == (
            crate::drivers::console::ConsoleState { row: 0, col: 0, ..old(console).state }),
        (final(registry)@, final(registry).backing, final(heap).list@, report)
            == spec_register_builtin(
            old(registry)@,
            old(registry).backing,
            old(heap).list@,
            old(console).spec_starts(),
        ),
        final(registry)@.len() == old(registry)@.len() + (if report.0 is Ok { 1int } else { 0 }) + (
        if report.1 is Ok { 1int } else { 0 }) + (if report.2 is Ok { 1int } else { 0 }),
        final(registry)@.subrange(0, old(registry)@.len() as int) == old(registry)@,
{
    let first = match console.init() {
        Ok(()) => registry.register_char(heap, CharDeviceId::Console),
        Err(_) => Err(DriverError::InitFailed),
    };
    let ghost after_first = registry@;
    let mut null = NullDevice;
    let second = match null.init() {
        Ok(()) => registry.register_char(heap, CharDeviceId::Null),
        Err(_) => Err(DriverError::InitFailed),
    };
    let ghost after_second = registry@;
    let mut zero = ZeroDevice;
    let third = match zero.init() {
        Ok(()) => registry.register_char(heap, CharDeviceId::Zero),
        Err(_) => Err(DriverError::InitFailed),
    };
    proof {
        assert(after_first.subrange(0, old(registry)@.len() as int) =~= old(registry)@);
        assert(after_second.subrange(0, old(registry)@.len() as int) =~= old(registry)@);
        assert(registry@.subrange(0, old(registry)@.len() as int) =~= old(registry)@);
    }
    (first, second, third)
}

} // verus!
