//! The timer tick.

use vstd::prelude::*;
use crate::arch::interrupts::{
    enable_vector, register_handler, spec_unmask, HandlerKind, InterruptFrame, InterruptTable, Pic,
    IRQ_PIT, VECTOR_PIT,
};
use crate::arch::io::PortWrite;
use crate::arch::pit::{init_frequency, spec_divisor, PIT_CHANNEL0, PIT_CONTROL, PIT_MODE};
use crate::process::sched::{request_preempt, spec_preemptible, Scheduler};
use crate::process::pcb::Process;
use crate::process::table::ProcessTable;

verus! {

/// Ticks per second, unless asked otherwise.
pub const DEFAULT_FREQUENCY_HZ: u32 = 100;

/// The ticks that a task may run before it is preempted.
pub const PREEMPT_SLICE_TICKS: u64 = 1;

/// The timer: how fast it ticks, and how often it has ticked.
#[derive(Clone, Copy, Debug, PartialEq, Eq, Structural)]
pub struct Timer {
    pub ticks: u64,
    pub frequency_hz: u32,
}

impl Timer {
    /// A timer that was not started.
    pub fn new() -> (timer: Timer)
        ensures
            timer == (Timer { ticks: 0, frequency_hz: 0 }),
    {
        Timer { ticks: 0, frequency_hz: 0 }
    }
}

/// Starts the timer at the usual rate.
pub fn init(timer: &mut Timer, table: &mut InterruptTable, pic: &mut Pic) -> (writes: Vec<PortWrite>)
    requires
        old(table).wf(),
    ensures
        final(table).wf(),
        final(timer).frequency_hz == DEFAULT_FREQUENCY_HZ,
        final(timer).ticks == old(timer).ticks,
        final(table).handlers@ == old(table).handlers@.update(VECTOR_PIT as int, HandlerKind::Timer),
        final(table).idt == old(table).idt,
        *final(pic) == spec_unmask(*old(pic), IRQ_PIT).0,
        writes@ == spec_unmask(*old(pic), IRQ_PIT).1 + spec_timer_writes(DEFAULT_FREQUENCY_HZ),
{
    init_with_frequency(timer, table, pic, DEFAULT_FREQUENCY_HZ)
}

/// The port writes that make the timer tick `hz` times a second.
pub open spec fn spec_timer_writes(hz: u32) -> Seq<PortWrite> {
    seq![
        PortWrite { port: PIT_CONTROL, value: PIT_MODE },
        PortWrite { port: PIT_CHANNEL0, value: (spec_divisor(hz) % 256) as u8 },
        PortWrite { port: PIT_CHANNEL0, value: (spec_divisor(hz) / 256) as u8 },
    ]
}

/// Starts the timer at `hz` ticks a second: its handler is registered, its
/// interrupt line is unmasked, and the timer is programmed. Returns the port
/// writes for the interrupt controller and the timer.
pub fn init_with_frequency(timer: &mut Timer, table: &mut InterruptTable, pic: &mut Pic, hz: u32) -> (writes:
    Vec<PortWrite>)
    requires
        old(table).wf(),
        hz > 0,
    ensures
        final(table).wf(),
        final(timer).frequency_hz == hz,
        final(timer).ticks == old(timer).ticks,
        final(table).handlers@ == old(table).handlers@.update(VECTOR_PIT as int, HandlerKind::Timer),
        final(table).idt == old(table).idt,
        *final(pic) == spec_unmask(*old(pic), IRQ_PIT).0,
        writes@ == spec_unmask(*old(pic), IRQ_PIT).1 + spec_timer_writes(hz),
{
    timer.frequency_hz = hz;
    register_handler(table, VECTOR_PIT, HandlerKind::Timer);
    let mut writes = enable_vector(pic, VECTOR_PIT);
    let mut programmed = init_frequency(hz);
    let ghost first = writes@;
    writes.append(&mut programmed);
    writes
}

/// The ticks since the timer was started.
pub fn ticks(timer: &Timer) -> (count: u64)
    ensures
        count == timer.ticks,
{
    timer.ticks
}

/// Takes a timer tick: the tick is counted, and the running task is asked
/// to give up the processor.
pub fn timer_handler(
    timer: &mut Timer,
    sched: &mut Scheduler,
    frame: &mut InterruptFrame,
    preempt_trampoline: u64,
    lock_free: bool,
)
    requires
        old(sched).wf(),
    ensures
        final(sched).wf(),
        final(timer).frequency_hz == old(timer).frequency_hz,
        final(timer).ticks == (if old(timer).ticks == u64::MAX {
            0
        } else {
            (old(timer).ticks + 1) as u64
        }),
        *final(sched) == (Scheduler {
            table: ProcessTable { entries: final(sched).table.entries, ..old(sched).table },
            need_resched: true,
            ..*old(sched)
        }),
        match spec_preemptible(old(sched).table@, old(sched).current_pid, old(frame).rip, lock_free) {
            None => final(sched).table@ == old(sched).table@ && *final(frame) == *old(frame),
            Some(index) => final(sched).table@ == old(sched).table@.update(
                index,
                Process { preempt_return: Some(old(frame).rip), ..old(sched).table@[index] },
            ) && *final(frame) == (InterruptFrame { rip: preempt_trampoline, ..*old(frame) }),
        },
{
    let tick = timer.ticks.wrapping_add(1);
    timer.ticks = tick;
    if tick % PREEMPT_SLICE_TICKS == 0 {
        request_preempt(sched, frame, preempt_trampoline, lock_free);
    }
}

} // verus!
