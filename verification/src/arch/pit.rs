//! The programmable interval timer.

use vstd::prelude::*;
use crate::arch::io::{outb, PortWrite};

verus! {

/// The timer's input clock, in Hz.
pub const PIT_CLOCK_OSC: u32 = 1_193_182;

pub const PIT_CONTROL: u16 = 0x43;

pub const PIT_CHANNEL0: u16 = 0x40;

/// Channel 0, both bytes of the count, square wave.
pub const PIT_MODE: u8 = 0x36;

/// The count that makes the timer tick `hz` times a second: the clock
/// divided by `hz`, held between 1 and 65535.
pub open spec fn spec_divisor(hz: u32) -> int {
    let count = PIT_CLOCK_OSC as int / hz as int;
    if count < 1 {
        1
    } else if count > 0xFFFF {
        0xFFFF
    } else {
        count
    }
}

/// The port writes that program the timer for `hz` ticks a second: the
/// mode, then the low and the high byte of the count.
pub fn init_frequency(hz: u32) -> (writes: Vec<PortWrite>)
    requires
        hz > 0,
    ensures
        writes@ == seq![
            PortWrite { port: PIT_CONTROL, value: PIT_MODE },
            PortWrite { port: PIT_CHANNEL0, value: (spec_divisor(hz) % 256) as u8 },
            PortWrite { port: PIT_CHANNEL0, value: (spec_divisor(hz) / 256) as u8 },
        ],
{
    let mut divisor = PIT_CLOCK_OSC / hz;
    if divisor == 0 {
        divisor = 1;
    }
    if divisor > 0xFFFF {
        divisor = 0xFFFF;
    }
    let low = (divisor % 256) as u8;
    let high = (divisor / 256) as u8;
    let mut writes: Vec<PortWrite> = Vec::new();
    writes.push(outb(PIT_CONTROL, PIT_MODE));
    writes.push(outb(PIT_CHANNEL0, low));
    writes.push(outb(PIT_CHANNEL0, high));
    assert(writes@ =~= seq![
        PortWrite { port: PIT_CONTROL, value: PIT_MODE },
        PortWrite { port: PIT_CHANNEL0, value: (spec_divisor(hz) % 256) as u8 },
        PortWrite { port: PIT_CHANNEL0, value: (spec_divisor(hz) / 256) as u8 },
    ]);
    writes
}

} // verus!
