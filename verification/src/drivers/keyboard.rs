//! The keyboard: a character device that hands out the bytes that were typed.

use vstd::prelude::*;
use crate::arch::keyboard::KeyboardState;
use crate::drivers::{CharDevice, CharDeviceId, Driver, DriverError, DriverKind};

verus! {

/// The keyboard: what was typed and not yet read, and whether it was started.
pub struct Keyboard {
    pub state: KeyboardState,
    pub initialized: bool,
}

impl Keyboard {
    pub open spec fn wf(&self) -> bool {
        self.state.wf()
    }

    /// The keyboard before it was started.
    pub fn instance() -> (keyboard: Keyboard)
        ensures
            keyboard.wf(),
            keyboard.state@.len() == 0,
            !keyboard.initialized,
    {
        Keyboard { state: KeyboardState::new(), initialized: false }
    }
}

impl Driver for Keyboard {
    fn name(&self) -> (name: &'static str)
        ensures
            name@ == "keyboard"@,
    {
        "keyboard"
    }

    fn kind(&self) -> (kind: DriverKind)
        ensures
            kind == DriverKind::Char,
    {
        DriverKind::Char
    }

    /// Starts the keyboard. Starting it again changes nothing.
    fn init(&mut self) -> (res: Result<(), DriverError>)
        ensures
            res is Ok,
            final(self).initialized,
            final(self).state == old(self).state,
    {
        let _ = crate::arch::keyboard::init(&mut self.initialized);
        Ok(())
    }

    fn shutdown(&mut self)
        ensures
            *final(self) == *old(self),
    {
    }
}

impl CharDevice for Keyboard {
    /// Hands out the oldest byte that waits, without waiting for one.
    fn read(&mut self, buf: &mut [u8]) -> (res: Result<usize, DriverError>)
        ensures
            final(self).initialized == old(self).initialized,
            final(self).state.shift == old(self).state.shift,
            final(self).state.caps_lock == old(self).state.caps_lock,
            !old(self).wf() ==> res is Err && final(self).state == old(self).state && final(buf)@
                == old(buf)@,
            old(self).wf() ==> final(self).wf() && (if old(buf)@.len() > 0 && old(self).state@.len()
                > 0 {
                res == Ok::<usize, DriverError>(1) && final(self).state@ == old(self).state@.drop_first() && final(buf)@ == old(buf)@.update(0, old(self).state@[0])
            } else {
                res == Ok::<usize, DriverError>(0) && final(self).state@ == old(self).state@
                    && final(buf)@ == old(buf)@
            }),
    {
        if self.state.buffer.len() != crate::arch::keyboard::BUFFER_SIZE || self.state.head
            >= crate::arch::keyboard::BUFFER_SIZE || self.state.tail
            >= crate::arch::keyboard::BUFFER_SIZE {
            return Err(DriverError::IoError);
        }
        Ok(crate::arch::keyboard::read(&mut self.state, buf))
    }

    /// Nothing can be written to the keyboard.
    fn write(&mut self, buf: &[u8]) -> (res: Result<usize, DriverError>)
        ensures
            res == Err::<usize, DriverError>(DriverError::Unsupported),
            *final(self) == *old(self),
    {
        let _ = buf;
        Err(DriverError::Unsupported)
    }
}

/// The keyboard, as a character device.
pub fn driver() -> (id: CharDeviceId)
    ensures
        id == CharDeviceId::Keyboard,
{
    CharDeviceId::Keyboard
}

} // verus!
