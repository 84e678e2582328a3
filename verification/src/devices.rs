//! The devices of the machine and what is mounted on them.

use vstd::prelude::*;
use crate::drivers::builtin::{NullDevice, ZeroDevice};
use crate::drivers::console::{spec_write, Console};
use crate::drivers::keyboard::Keyboard;
use crate::drivers::{BlockDevice, CharDevice, CharDeviceId, DriverError, DriverRegistry};
use crate::fs::fat::FatVolume;
use crate::vfs::ata::AtaScratchFile;

verus! {

/// The registry, the character devices, the disk, and the files on the disk.
pub struct Devices<D: BlockDevice> {
    pub registry: DriverRegistry,
    pub console: Console,
    pub keyboard: Keyboard,
    pub disk: D,
    pub scratch: Option<AtaScratchFile>,
    pub fat: Option<FatVolume>,
}

impl<D: BlockDevice> Devices<D> {
    pub open spec fn wf(&self) -> bool {
        &&& self.registry.wf()
        &&& self.console.wf()
        &&& self.keyboard.wf()
        &&& self.fat matches Some(volume) ==> volume.wf()
    }

    /// The devices at boot: nothing registered, nothing mounted.
    pub fn new(disk: D) -> (devices: Devices<D>)
        ensures
            devices.wf(),
            devices.disk == disk,
            devices.scratch is None,
            devices.fat is None,
            devices.registry@.len() == 0,
            devices.registry.backing == (crate::mem::backing::Backing { addr: 0, capacity: 0 }),
            devices.console.state == (crate::drivers::console::ConsoleState {
                row: 0,
                col: 0,
                attr: crate::arch::console::DEFAULT_ATTR,
            }),
            devices.keyboard.state@.len() == 0,
            !devices.keyboard.initialized,
    {
        Devices {
            registry: DriverRegistry::new(),
            console: Console::instance(),
            keyboard: Keyboard::instance(),
            disk,
            scratch: None,
            fat: None,
        }
    }

    /// Reads from the character device `id`.
    pub fn char_read(&mut self, id: CharDeviceId, buf: &mut [u8]) -> (res: Result<usize, DriverError>)
        requires
            old(self).wf(),
        ensures
            final(self).wf(),
            final(buf)@.len() == old(buf)@.len(),
            final(self).registry == old(self).registry,
            final(self).console == old(self).console,
            final(self).disk == old(self).disk,
            final(self).scratch == old(self).scratch,
            final(self).fat == old(self).fat,
            final(self).keyboard.initialized == old(self).keyboard.initialized,
            final(self).keyboard.state.shift == old(self).keyboard.state.shift,
            final(self).keyboard.state.caps_lock == old(self).keyboard.state.caps_lock,
            match id {
                CharDeviceId::Console | CharDeviceId::Null => res == Ok::<usize, DriverError>(0)
                    && final(buf)@ == old(buf)@ && final(self).keyboard == old(self).keyboard,
                CharDeviceId::Zero => res == Ok::<usize, DriverError>(old(buf)@.len() as usize)
                    && final(self).keyboard == old(self).keyboard && forall|i: int|
                    0 <= i < final(buf)@.len() ==> final(buf)@[i] == 0,
                CharDeviceId::Keyboard => if old(buf)@.len() > 0 && old(self).keyboard.state@.len()
                    > 0 {
                    res == Ok::<usize, DriverError>(1) && final(self).keyboard.state@ == old(self).keyboard.state@.drop_first() && final(buf)@ == old(buf)@.update(
                        0,
                        old(self).keyboard.state@[0],
                    )
                } else {
                    res == Ok::<usize, DriverError>(0) && final(self).keyboard.state@ == old(self).keyboard.state@ && final(buf)@ == old(buf)@
                },
            },
    {
        match id {
            CharDeviceId::Console => self.console.read(buf),
            CharDeviceId::Keyboard => self.keyboard.read(buf),
            CharDeviceId::Null => {
                let mut device = NullDevice;
                device.read(buf)
            },
            CharDeviceId::Zero => {
                let mut device = ZeroDevice;
                device.read(buf)
            },
        }
    }

    /// Writes to the character device `id`.
    pub fn char_write(&mut self, id: CharDeviceId, buf: &[u8]) -> (res: Result<usize, DriverError>)
        requires
            old(self).wf(),
        ensures
            final(self).wf(),
            final(self).registry == old(self).registry,
            final(self).keyboard == old(self).keyboard,
            final(self).disk == old(self).disk,
            final(self).scratch == old(self).scratch,
            final(self).fat == old(self).fat,
            match id {
                CharDeviceId::Console => res == Ok::<usize, DriverError>(buf@.len() as usize)
                    && final(self).console@ == spec_write(
                    old(self).console@,
                    buf@,
                    old(self).console.state.attr,
                ) && final(self).console.state.attr == old(self).console.state.attr && final(self).console.screen.cursor == old(self).console.screen.cursor && final(self).console.screen.pending == old(self).console.screen.pending,
                CharDeviceId::Null | CharDeviceId::Zero => res == Ok::<usize, DriverError>(
                    buf@.len() as usize,
                ) && final(self).console == old(self).console,
                CharDeviceId::Keyboard => res == Err::<usize, DriverError>(DriverError::Unsupported)
                    && final(self).console == old(self).console,
            },
    {
        match id {
            CharDeviceId::Console => self.console.write(buf),
            CharDeviceId::Keyboard => self.keyboard.write(buf),
            CharDeviceId::Null => {
                let mut device = NullDevice;
                device.write(buf)
            },
            CharDeviceId::Zero => {
                let mut device = ZeroDevice;
                device.write(buf)
            },
        }
    }
}

} // verus!
