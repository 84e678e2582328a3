//! The scheduler: who runs, who waits, and how the processor changes hands.
//!
//! The scheduler decides; it does not loop or wait. Where the kernel would
//! spin until another task can run, the functions here make one attempt and
//! say how it went: whoever drives the machine tries again after the next
//! interrupt.

use vstd::prelude::*;
use crate::arch::interrupts::InterruptFrame;
use crate::arch::mmu::KERNEL_VMA_BASE;
use crate::mem::heap::{KernelAllocator, Layout};
use crate::process::pcb::{spec_release_process, KernelEnv, Process};
use crate::process::regions::spec_swap_remove;
use crate::process::table::{
    is_child, pids_unique, spec_index_of, spec_next_ready_index, spec_spawn_kernel,
    spec_zombie_index, ProcessTable,
};
use crate::process::types::{
    AddressSpace, AddressSpaceKind, Context, MemoryPermissions, MemoryRegionKind, Pid, ProcessError,
    ProcessState, UserStack, WaitChannel,
};
use crate::user::Credentials;

verus! {

/// What of the processor the scheduler sets: the registers that a context
/// switch exchanges, the root of the page tables, and the stack that the
/// processor takes when it enters the kernel from user mode.
#[derive(Clone, Copy, Debug, PartialEq, Eq, Structural)]
pub struct Cpu {
    pub context: Context,
    pub cr3: u64,
    pub rsp0: u64,
}

/// The process table and the state of scheduling.
pub struct Scheduler {
    pub table: ProcessTable,
    /// The pid of the process that has the processor; 0 where none has.
    pub current_pid: Pid,
    /// Set by the timer: the running task is to give up the processor.
    pub need_resched: bool,
    /// Where the registers of the boot code are saved by the first switch.
    pub boot_context: Context,
    pub cpu: Cpu,
}

/// How waiting for a child ended.
#[derive(Clone, Copy, Debug, PartialEq, Eq, Structural)]
pub enum WaitOutcome {
    /// A child had exited: its pid and exit code. It is gone from the table.
    Reaped(Pid, i32),
    /// No child has exited yet. The caller is blocked; it is to ask again
    /// when it runs next. Tells whether another task got the processor.
    Blocked(bool),
}

/// Each process that is running is the current one.
pub open spec fn running_is_current(entries: Seq<Process>, current_pid: Pid) -> bool {
    forall|i: int|
        0 <= i < entries.len() && (#[trigger] entries[i]).state == ProcessState::Running
            ==> entries[i].pid == current_pid
}

/// The slot of the current process, where there is one in the table.
pub open spec fn spec_current_index(entries: Seq<Process>, current_pid: Pid) -> Option<usize> {
    if current_pid != 0 && spec_index_of(entries, current_pid) < entries.len() {
        Some(spec_index_of(entries, current_pid) as usize)
    } else {
        None
    }
}

/// A process after `event`: one that was blocked on a channel that the event
/// matches is ready, with no channel; any other is as it was.
pub open spec fn spec_woken(process: Process, event: WaitChannel) -> Process {
    if process.state == ProcessState::Blocked && process.wait_channel is Some
        && process.wait_channel->0.spec_matches_event(event) {
        Process {
            state: ProcessState::Ready,
            wait_channel: None,
            preempt_return: None,
            ..process
        }
    } else {
        process
    }
}

/// A process once it was blocked on `channel`.
pub open spec fn spec_blocked(process: Process, channel: WaitChannel) -> Process {
    Process {
        state: ProcessState::Blocked,
        wait_channel: Some(channel),
        preempt_return: None,
        ..process
    }
}

/// A process once it has exited with `code`.
pub open spec fn spec_exited(process: Process, code: i32) -> Process {
    Process {
        state: ProcessState::Zombie,
        wait_channel: None,
        exit_code: Some(code),
        preempt_return: None,
        ..process
    }
}

/// A counter one higher, held at the largest number.
pub open spec fn spec_bump(count: u64) -> u64 {
    if count == u64::MAX {
        count
    } else {
        (count + 1) as u64
    }
}

/// The process in slot `i` after the processor went from the process in slot
/// `current` to the one in slot `next`: the one that had the processor is
/// ready again, if it was running, and keeps the registers that it had; the
/// one that gets it is running, and has one time slice more.
pub open spec fn spec_after_switch(
    process: Process,
    i: int,
    current: Option<usize>,
    next: usize,
    saved: Context,
) -> Process {
    if current == Some(i as usize) {
        Process {
            state: if process.state == ProcessState::Running {
                ProcessState::Ready
            } else {
                process.state
            },
            context: saved,
            ..process
        }
    } else if i == next {
        Process { state: ProcessState::Running, cpu_slices: spec_bump(process.cpu_slices), ..process }
    } else {
        process
    }
}

/// Exchanges the registers: those of the processor are saved in `current`,
/// those in `next` are loaded.
pub fn context_switch(cpu: &mut Context, current: &mut Context, next: &Context)
    ensures
        *final(current) == *old(cpu),
        *final(cpu) == *next,
{
    *current = *cpu;
    *cpu = *next;
}

impl Scheduler {
    /// The table is well formed, and at most one process is running: the
    /// current one.
    pub open spec fn wf(&self) -> bool {
        &&& self.table.wf()
        &&& running_is_current(self.table@, self.current_pid)
        &&& !self.table.initialized ==> self.table.idle_pid is None
    }

    /// The scheduler at boot: an empty table, nobody running.
    pub fn new(cpu: Cpu) -> (sched: Scheduler)
        ensures
            sched.wf(),
            sched.table@.len() == 0,
            sched.table.next_pid == 1,
            !sched.table.initialized,
            sched.table.idle_pid is None,
            sched.table.init_pid is None,
            sched.table.backing == (crate::mem::backing::Backing { addr: 0, capacity: 0 }),
            sched.current_pid == 0,
            !sched.need_resched,
            sched.cpu == cpu,
            sched.boot_context == Context::spec_new(),
    {
        Scheduler {
            table: ProcessTable::new(),
            current_pid: 0,
            need_resched: false,
            boot_context: Context::new(),
            cpu,
        }
    }
}

/// At every moment at most one process is running, and it is the one whose
/// pid the scheduler holds as current.
pub proof fn lemma_one_running(sched: Scheduler, i: int, j: int)
    requires
        sched.wf(),
        0 <= i < sched.table@.len(),
        0 <= j < sched.table@.len(),
        sched.table@[i].state == ProcessState::Running,
        sched.table@[j].state == ProcessState::Running,
    ensures
        i == j,
        sched.table@[i].pid == sched.current_pid,
{
    if i < j {
        assert(sched.table@[i].pid != sched.table@[j].pid);
    } else if j < i {
        assert(sched.table@[j].pid != sched.table@[i].pid);
    }
}

/// The pid of the process that has the processor.
pub fn current_pid(sched: &Scheduler) -> (pid: Option<Pid>)
    ensures
        pid == (if sched.current_pid == 0 { None } else { Some(sched.current_pid) }),
{
    match sched.current_pid {
        0 => None,
        pid => Some(pid),
    }
}

/// Names the process that has the processor. Nothing else changes: naming a
/// process while another one is running breaks the scheduler's invariant.
pub fn set_current_pid(sched: &mut Scheduler, pid: Pid)
    ensures
        *final(sched) == (Scheduler { current_pid: pid, ..*old(sched) }),
        old(sched).wf() && (forall|i: int|
            0 <= i < old(sched).table@.len() ==> (#[trigger] old(sched).table@[i]).state
                != ProcessState::Running) ==> final(sched).wf(),
{
    sched.current_pid = pid;
}

/// The pid of the init task, once there is one.
pub fn init_pid(sched: &Scheduler) -> (pid: Option<Pid>)
    ensures
        pid == sched.table.init_pid,
{
    sched.table.init_pid
}

/// What one attempt to change the running task does, from a scheduler
/// whose table holds `entries` and which is otherwise as `before`.
///
/// The next process is picked round robin, after the current one. Nothing
/// happens where none is found or the current one is picked again. Otherwise
/// the current process is ready again, if it was running; the next one is
/// running; the page tables change over where the two have different ones;
/// the kernel entry stack is that of the next process, if it is a user
/// process; and the registers are exchanged. With no current process the
/// registers of the processor are saved as those of the boot code.
pub open spec fn switch_outcome(
    entries: Seq<Process>,
    before: Scheduler,
    after: Scheduler,
    switched: bool,
) -> bool {
    let current = spec_current_index(entries, before.current_pid);
    let next = spec_next_ready_index(entries, current);
    &&& switched == (next is Some && next != current)
    &&& after.table == (ProcessTable { entries: after.table.entries, ..before.table })
    &&& after.need_resched == before.need_resched
    &&& !switched ==> after.table@ == entries && after.current_pid == before.current_pid
        && after.cpu == before.cpu && after.boot_context == before.boot_context
    &&& switched ==> {
        let target = entries[next->0 as int];
        &&& after.current_pid == target.pid
        &&& after.table@.len() == entries.len()
        &&& forall|i: int|
            0 <= i < entries.len() ==> #[trigger] after.table@[i] == spec_after_switch(
                entries[i],
                i,
                current,
                next->0,
                before.cpu.context,
            )
        &&& after.boot_context == (if current is None {
            before.cpu.context
        } else {
            before.boot_context
        })
        &&& after.cpu.context == target.context
        &&& after.cpu.cr3 == (if current is Some && entries[current->0 as int].address_space.cr3
            == target.address_space.cr3 {
            before.cpu.cr3
        } else {
            target.address_space.cr3
        })
        &&& after.cpu.rsp0 == (if target.address_space.kind == AddressSpaceKind::User {
            target.spec_kernel_stack_top()
        } else {
            before.cpu.rsp0
        })
    }
}

/// Takes the processor from the process in slot `index`: it is ready again,
/// if it was running, and keeps the registers `saved`.
fn depart(sched: &mut Scheduler, index: usize, saved: Context)
    requires
        index < old(sched).table@.len(),
    ensures
        *final(sched) == (Scheduler {
            table: ProcessTable { entries: final(sched).table.entries, ..old(sched).table },
            ..*old(sched)
        }),
        final(sched).table@ == old(sched).table@.update(
            index as int,
            Process {
                state: if old(sched).table@[index as int].state == ProcessState::Running {
                    ProcessState::Ready
                } else {
                    old(sched).table@[index as int].state
                },
                context: saved,
                ..old(sched).table@[index as int]
            },
        ),
{
    match sched.table.entries[index].state {
        ProcessState::Running => {
            sched.table.entries[index].state = ProcessState::Ready;
        },
        _ => {},
    }
    sched.table.entries[index].context = saved;
    assert(sched.table@ =~= old(sched).table@.update(
        index as int,
        Process {
            state: if old(sched).table@[index as int].state == ProcessState::Running {
                ProcessState::Ready
            } else {
                old(sched).table@[index as int].state
            },
            context: saved,
            ..old(sched).table@[index as int]
        },
    ));
}

/// Gives the processor to the process in slot `index`: it is running, has
/// one time slice more, and its registers are loaded.
fn arrive(sched: &mut Scheduler, index: usize)
    requires
        index < old(sched).table@.len(),
    ensures
        *final(sched) == (Scheduler {
            table: ProcessTable { entries: final(sched).table.entries, ..old(sched).table },
            current_pid: old(sched).table@[index as int].pid,
            cpu: Cpu {
                context: old(sched).table@[index as int].context,
                rsp0: if old(sched).table@[index as int].address_space.kind
                    == AddressSpaceKind::User {
                    old(sched).table@[index as int].spec_kernel_stack_top()
                } else {
                    old(sched).cpu.rsp0
                },
                ..old(sched).cpu
            },
            ..*old(sched)
        }),
        final(sched).table@ == old(sched).table@.update(
            index as int,
            Process {
                state: ProcessState::Running,
                cpu_slices: spec_bump(old(sched).table@[index as int].cpu_slices),
                ..old(sched).table@[index as int]
            },
        ),
{
    sched.table.entries[index].state = ProcessState::Running;
    let slices = sched.table.entries[index].cpu_slices.saturating_add(1);
    sched.table.entries[index].cpu_slices = slices;
    sched.current_pid = sched.table.entries[index].pid;
    if sched.table.entries[index].address_space.is_user() {
        sched.cpu.rsp0 = sched.table.entries[index].kernel_stack_top();
    }
    sched.cpu.context = sched.table.entries[index].context;
    assert(sched.table@ =~= old(sched).table@.update(
        index as int,
        Process {
            state: ProcessState::Running,
            cpu_slices: spec_bump(old(sched).table@[index as int].cpu_slices),
            ..old(sched).table@[index as int]
        },
    ));
}

/// A scheduler stays well formed when the processor changes hands.
pub proof fn lemma_switch_wf(before: Scheduler, after: Scheduler)
    requires
        before.wf(),
        switch_outcome(before.table@, before, after, true),
    ensures
        after.wf(),
{
    let entries = before.table@;
    let current = spec_current_index(entries, before.current_pid);
    let next = spec_next_ready_index(entries, current)->0 as int;
    lemma_index_of_bounds(entries, before.current_pid);
    lemma_next_ready_in_range(entries, current);
    assert forall|i: int| 0 <= i < entries.len() implies (#[trigger] after.table@[i]).pid
        == entries[i].pid && after.table@[i].is_idle == entries[i].is_idle && after.table@[i].wf()
        && (after.table@[i].state == ProcessState::Running ==> i == next) by {
        assert(after.table@[i] == spec_after_switch(
            entries[i],
            i,
            current,
            next as usize,
            before.cpu.context,
        ));
        assert(entries[i].wf());
        if entries[i].state == ProcessState::Running && i != next {
            assert(entries[i].pid == before.current_pid);
            lemma_index_of_found(entries, before.current_pid, i);
        }
    }
    assert forall|i: int, j: int| 0 <= i < j < after.table@.len() implies (
    #[trigger] after.table@[i]).pid != (#[trigger] after.table@[j]).pid by {
        assert(entries[i].pid != entries[j].pid);
    }
    assert forall|i: int| 0 <= i < after.table@.len() implies 1 <= (
    #[trigger] after.table@[i]).pid < after.table.next_pid by {
        assert(1 <= entries[i].pid < before.table.next_pid);
    }
    assert forall|i: int| 0 <= i < after.table@.len() implies ((
    #[trigger] after.table@[i]).is_idle <==> after.table.idle_pid == Some(after.table@[i].pid)) by {
        assert(entries[i].is_idle <==> before.table.idle_pid == Some(entries[i].pid));
    }
}

/// The slot that the scheduler picks lies in the table.
pub proof fn lemma_next_ready_in_range(entries: Seq<Process>, start: Option<usize>)
    requires
        start matches Some(index) ==> index < entries.len(),
    ensures
        spec_next_ready_index(entries, start) matches Some(index) ==> index < entries.len(),
{
    if entries.len() > 0 {
        let first = crate::process::table::scan_start(start, entries.len() as int);
        lemma_first_in_scan_range(entries, first, 0, false);
        lemma_first_in_scan_range(entries, first, 0, true);
    }
}

/// How many steps a search that begins at slot `first` takes to slot
/// `slot`, going round.
pub open spec fn spec_scan_steps(first: int, slot: int, len: int) -> int {
    if slot >= first {
        slot - first
    } else {
        slot - first + len
    }
}

/// A search passes over no ready process: where a ready process that is
/// not the idle task stands `steps` steps from the start, the search finds
/// a ready process no more steps away.
pub proof fn lemma_scan_passes_none(entries: Seq<Process>, first: int, k: int, steps: int)
    requires
        entries.len() <= usize::MAX,
        0 <= first < entries.len(),
        0 <= k <= steps < entries.len(),
        crate::process::table::ready_candidate(
            entries[crate::process::table::scan_index(first, steps, entries.len() as int)],
        ),
    ensures
        crate::process::table::first_in_scan(entries, first, k, false) matches Some(found) && found
            < entries.len() && crate::process::table::ready_candidate(entries[found as int]) && k
            <= spec_scan_steps(first, found as int, entries.len() as int) <= steps,
    decreases steps - k,
{
    let index = crate::process::table::scan_index(first, k, entries.len() as int);
    if !crate::process::table::ready_candidate(entries[index]) {
        lemma_scan_passes_none(entries, first, k + 1, steps);
    }
}

/// Every ready process gets its turn: when the current process gives up
/// the processor, a ready process that is not the idle task either gets it
/// or is fewer steps away from the process that does than it was from the
/// one that gave it up; and it is still ready then. So a process that stays
/// ready runs after fewer yields than the table has slots.
pub proof fn lemma_yield_comes_nearer(entries: Seq<Process>, current: usize, waiting: usize, saved: Context)
    requires
        entries.len() <= usize::MAX,
        current < entries.len(),
        waiting < entries.len(),
        waiting != current,
        crate::process::table::ready_candidate(entries[waiting as int]),
    ensures
        ({
            let len = entries.len() as int;
            let next = spec_next_ready_index(entries, Some(current));
            &&& next matches Some(chosen)
            &&& chosen < entries.len()
            &&& chosen != current
            &&& crate::process::table::ready_candidate(entries[chosen as int])
            &&& chosen != waiting ==> spec_scan_steps(
                crate::process::table::scan_start(Some(chosen), len),
                waiting as int,
                len,
            ) < spec_scan_steps(
                crate::process::table::scan_start(Some(current), len),
                waiting as int,
                len,
            ) && spec_after_switch(entries[waiting as int], waiting as int, Some(current), chosen, saved)
                == entries[waiting as int]
            &&& spec_after_switch(entries[chosen as int], chosen as int, Some(current), chosen, saved)
                == (Process {
                state: ProcessState::Running,
                cpu_slices: spec_bump(entries[chosen as int].cpu_slices),
                ..entries[chosen as int]
            })
        }),
{
    let len = entries.len() as int;
    let first = crate::process::table::scan_start(Some(current), len);
    let steps = spec_scan_steps(first, waiting as int, len);
    assert(crate::process::table::scan_index(first, steps, len) == waiting);
    lemma_scan_passes_none(entries, first, 0, steps);
}

/// The table after the process in slot `current` gave up the processor, and
/// the slot of the process that has it then.
pub open spec fn spec_turn(entries: Seq<Process>, current: usize, saved: Context) -> (
    Seq<Process>,
    usize,
) {
    let next = spec_next_ready_index(entries, Some(current));
    if next is Some && next != Some(current) {
        (
            Seq::new(
                entries.len(),
                |i: int| spec_after_switch(entries[i], i, Some(current), next->0, saved),
            ),
            next->0,
        )
    } else {
        (entries, current)
    }
}

/// Three tasks that only give up the processor to each other take turns:
/// where the tasks in the slots `a`, `b` and `c` are the only ones that can
/// run, and the one in `a` is running, three yields give the processor to
/// each of the three once, the one in `a` last, and each has one time slice
/// more afterwards.
pub proof fn lemma_three_take_turns(
    entries: Seq<Process>,
    a: usize,
    b: usize,
    c: usize,
    first: Context,
    second: Context,
    third: Context,
)
    requires
        entries.len() <= usize::MAX,
        a < entries.len(),
        b < entries.len(),
        c < entries.len(),
        a != b && b != c && a != c,
        entries[a as int].state == ProcessState::Running,
        !entries[a as int].is_idle,
        crate::process::table::ready_candidate(entries[b as int]),
        crate::process::table::ready_candidate(entries[c as int]),
        forall|i: int|
            0 <= i < entries.len() && i != a && i != b && i != c
                ==> !crate::process::table::ready_candidate(#[trigger] entries[i]),
    ensures
        ({
            let (one, x) = spec_turn(entries, a, first);
            let (two, y) = spec_turn(one, x, second);
            let (three, z) = spec_turn(two, y, third);
            &&& (x == b && y == c) || (x == c && y == b)
            &&& z == a
            &&& three.len() == entries.len()
            &&& three[a as int].state == ProcessState::Running
            &&& three[b as int].state == ProcessState::Ready
            &&& three[c as int].state == ProcessState::Ready
            &&& three[a as int].cpu_slices == spec_bump(entries[a as int].cpu_slices)
            &&& three[b as int].cpu_slices == spec_bump(entries[b as int].cpu_slices)
            &&& three[c as int].cpu_slices == spec_bump(entries[c as int].cpu_slices)
            &&& !three[a as int].is_idle && !three[b as int].is_idle && !three[c as int].is_idle
            &&& forall|i: int|
                0 <= i < entries.len() && i != a && i != b && i != c ==> #[trigger] three[i]
                    == entries[i]
            &&& one.len() == entries.len() && two.len() == entries.len()
            &&& one[x as int].cpu_slices == spec_bump(entries[x as int].cpu_slices)
            &&& one[a as int].cpu_slices == entries[a as int].cpu_slices
            &&& one[y as int].cpu_slices == entries[y as int].cpu_slices
            &&& two[x as int].cpu_slices == one[x as int].cpu_slices
            &&& two[a as int].cpu_slices == entries[a as int].cpu_slices
            &&& two[y as int].cpu_slices == spec_bump(entries[y as int].cpu_slices)
        }),
{
    let len = entries.len() as int;
    let from_a = crate::process::table::scan_start(Some(a), len);
    let to_b = spec_scan_steps(from_a, b as int, len);
    let to_c = spec_scan_steps(from_a, c as int, len);
    assert(crate::process::table::scan_index(from_a, to_b, len) == b);
    assert(crate::process::table::scan_index(from_a, to_c, len) == c);
    lemma_scan_passes_none(entries, from_a, 0, to_b);
    lemma_scan_passes_none(entries, from_a, 0, to_c);
    let (one, x) = spec_turn(entries, a, first);
    assert(x == b || x == c);
    let w: usize = if x == b { c } else { b };
    assert(one[a as int].state == ProcessState::Ready && !one[a as int].is_idle);
    assert(one[x as int].state == ProcessState::Running);
    assert(one[w as int] == entries[w as int]);
    assert forall|i: int| 0 <= i < one.len() && i != a && i != w implies !crate::process::table::ready_candidate(
        #[trigger] one[i],
    ) by {
        if i != x {
            assert(one[i] == entries[i]);
        }
    }
    let from_x = crate::process::table::scan_start(Some(x), len);
    let to_w = spec_scan_steps(from_x, w as int, len);
    assert(crate::process::table::scan_index(from_x, to_w, len) == w);
    lemma_scan_passes_none(one, from_x, 0, to_w);
    let (two, y) = spec_turn(one, x, second);
    assert(spec_scan_steps(from_x, a as int, len) > to_w);
    assert(y == w);
    assert(two[x as int].state == ProcessState::Ready && !two[x as int].is_idle);
    assert(two[a as int] == one[a as int]);
    assert(two[w as int].state == ProcessState::Running);
    assert forall|i: int| 0 <= i < two.len() && i != a && i != x implies !crate::process::table::ready_candidate(
        #[trigger] two[i],
    ) by {
        if i != w {
            assert(two[i] == one[i]);
        }
    }
    let from_w = crate::process::table::scan_start(Some(w), len);
    let to_a = spec_scan_steps(from_w, a as int, len);
    assert(crate::process::table::scan_index(from_w, to_a, len) == a);
    lemma_scan_passes_none(two, from_w, 0, to_a);
    assert(spec_scan_steps(from_w, x as int, len) > to_a);
    let (three, z) = spec_turn(two, w, third);
    assert(z == a);
    assert(three[x as int] == two[x as int]);
    assert forall|i: int| 0 <= i < entries.len() && i != a && i != b && i != c implies #[trigger] three[i]
        == entries[i] by {
        assert(one[i] == entries[i]);
        assert(two[i] == one[i]);
        assert(three[i] == two[i]);
    }
}

/// Three tasks are the only ones that can run, and the first has the
/// processor: the task in slot `a` is running and not the idle task, those
/// in the slots `b` and `c` are ready and not the idle task, and no other
/// process is.
pub open spec fn three_tasks(entries: Seq<Process>, a: usize, b: usize, c: usize) -> bool {
    &&& entries.len() <= usize::MAX
    &&& a < entries.len() && b < entries.len() && c < entries.len()
    &&& a != b && b != c && a != c
    &&& entries[a as int].state == ProcessState::Running
    &&& !entries[a as int].is_idle
    &&& crate::process::table::ready_candidate(entries[b as int])
    &&& crate::process::table::ready_candidate(entries[c as int])
    &&& forall|i: int|
        0 <= i < entries.len() && i != a && i != b && i != c
            ==> !crate::process::table::ready_candidate(#[trigger] entries[i])
}

/// The table `after` is what giving the processor from the process in slot
/// `current` to the next one in its turn, in slot `chosen`, makes of the
/// table `before`, as far as states, idle marks and time slices go. A yield
/// is such a turn, and so is the switch at the end of a preemption.
pub open spec fn turn_like(before: Seq<Process>, current: usize, after: Seq<Process>, chosen: usize) -> bool {
    &&& after.len() == before.len()
    &&& current < before.len()
    &&& spec_next_ready_index(before, Some(current)) == Some(chosen)
    &&& chosen != current
    &&& forall|i: int|
        0 <= i < before.len() ==> (#[trigger] after[i]).is_idle == before[i].is_idle && after[i].state
            == spec_after_switch(before[i], i, Some(current), chosen, before[i].context).state
            && after[i].cpu_slices == spec_after_switch(
            before[i],
            i,
            Some(current),
            chosen,
            before[i].context,
        ).cpu_slices
}

/// One turn among three tasks: the processor goes to the nearer of the two
/// that wait, which gains a time slice, and the three are the only ones
/// that can run afterwards too, with that one running.
pub proof fn lemma_one_turn_of_three(
    before: Seq<Process>,
    after: Seq<Process>,
    a: usize,
    b: usize,
    c: usize,
    chosen: usize,
)
    requires
        three_tasks(before, a, b, c),
        turn_like(before, a, after, chosen),
    ensures
        chosen == b || chosen == c,
        chosen == b ==> three_tasks(after, b, c, a) && spec_scan_steps(
            crate::process::table::scan_start(Some(a), before.len() as int),
            b as int,
            before.len() as int,
        ) < spec_scan_steps(
            crate::process::table::scan_start(Some(a), before.len() as int),
            c as int,
            before.len() as int,
        ),
        chosen == c ==> three_tasks(after, c, b, a) && spec_scan_steps(
            crate::process::table::scan_start(Some(a), before.len() as int),
            c as int,
            before.len() as int,
        ) < spec_scan_steps(
            crate::process::table::scan_start(Some(a), before.len() as int),
            b as int,
            before.len() as int,
        ),
        after[chosen as int].cpu_slices == spec_bump(before[chosen as int].cpu_slices),
        forall|i: int|
            0 <= i < before.len() && i != chosen ==> (#[trigger] after[i]).cpu_slices
                == before[i].cpu_slices,
{
    let len = before.len() as int;
    let from_a = crate::process::table::scan_start(Some(a), len);
    let to_b = spec_scan_steps(from_a, b as int, len);
    let to_c = spec_scan_steps(from_a, c as int, len);
    assert(crate::process::table::scan_index(from_a, to_b, len) == b);
    assert(crate::process::table::scan_index(from_a, to_c, len) == c);
    lemma_scan_passes_none(before, from_a, 0, to_b);
    lemma_scan_passes_none(before, from_a, 0, to_c);
    assert(chosen == b || chosen == c);
    assert forall|i: int| 0 <= i < before.len() && i != a && i != b && i != c implies !crate::process::table::ready_candidate(
        #[trigger] after[i],
    ) by {
        assert(after[i].state == before[i].state);
    }
    assert(after[a as int].state == ProcessState::Ready);
    assert(after[chosen as int].state == ProcessState::Running);
}

/// Three turns among three tasks: each of them has the processor once and
/// gains one time slice, and the processor is back where it was.
pub proof fn lemma_three_turns_of_three(
    tables: Seq<Seq<Process>>,
    currents: Seq<usize>,
    a: usize,
    b: usize,
    c: usize,
)
    requires
        tables.len() >= 4,
        currents.len() == tables.len(),
        currents[0] == a,
        three_tasks(tables[0], a, b, c),
        turn_like(tables[0], currents[0], tables[1], currents[1]),
        turn_like(tables[1], currents[1], tables[2], currents[2]),
        turn_like(tables[2], currents[2], tables[3], currents[3]),
    ensures
        currents[3] == a,
        three_tasks(tables[3], a, b, c),
        tables[3][a as int].cpu_slices == spec_bump(tables[0][a as int].cpu_slices),
        tables[3][b as int].cpu_slices == spec_bump(tables[0][b as int].cpu_slices),
        tables[3][c as int].cpu_slices == spec_bump(tables[0][c as int].cpu_slices),
{
    let x = currents[1];
    lemma_one_turn_of_three(tables[0], tables[1], a, b, c, x);
    let y: usize = if x == b {
        c
    } else {
        b
    };
    lemma_one_turn_of_three(tables[1], tables[2], x, y, a, currents[2]);
    assert(currents[2] == y);
    lemma_one_turn_of_three(tables[2], tables[3], y, a, x, currents[3]);
    assert(currents[3] == a);
}

/// Three tasks that only give up the processor to each other, of their own
/// accord or preempted, share it evenly over any number of turns. `tables`
/// holds the process table before the first turn and after each turn,
/// `currents` the slot of the process that has the processor then. Where
/// the tasks in the slots `a`, `b` and `c` are the only ones that can run
/// at first, with the one in `a` running, each of the three has gained a
/// third of the number of turns in time slices at the end, rounded down or
/// up, and the three gains add up to the number of turns. So over three
/// turns or more each task gains a slice, and no task gains more than three
/// times what another gains.
pub proof fn lemma_turns_are_fair(
    tables: Seq<Seq<Process>>,
    currents: Seq<usize>,
    a: usize,
    b: usize,
    c: usize,
)
    requires
        tables.len() >= 1,
        currents.len() == tables.len(),
        currents[0] == a,
        three_tasks(tables[0], a, b, c),
        forall|k: int|
            0 <= k < tables.len() - 1 ==> turn_like(
                #[trigger] tables[k],
                currents[k],
                tables[k + 1],
                currents[k + 1],
            ),
        tables[0][a as int].cpu_slices + tables.len() <= u64::MAX,
        tables[0][b as int].cpu_slices + tables.len() <= u64::MAX,
        tables[0][c as int].cpu_slices + tables.len() <= u64::MAX,
    ensures
        ({
            let n = tables.len() - 1;
            let after = tables.last();
            let gain_a = after[a as int].cpu_slices - tables[0][a as int].cpu_slices;
            let gain_b = after[b as int].cpu_slices - tables[0][b as int].cpu_slices;
            let gain_c = after[c as int].cpu_slices - tables[0][c as int].cpu_slices;
            &&& n / 3 <= gain_a <= n / 3 + 1
            &&& n / 3 <= gain_b <= n / 3 + 1
            &&& n / 3 <= gain_c <= n / 3 + 1
            &&& gain_a + gain_b + gain_c == n
            &&& n >= 3 ==> gain_a > 0 && gain_b > 0 && gain_c > 0 && gain_a <= 3 * gain_b && gain_a
                <= 3 * gain_c && gain_b <= 3 * gain_a && gain_b <= 3 * gain_c && gain_c <= 3 * gain_a
                && gain_c <= 3 * gain_b
        }),
    decreases tables.len(),
{
    let n = tables.len() - 1;
    if n >= 3 {
        assert(turn_like(tables[0], currents[0], tables[1], currents[1]));
        assert(turn_like(tables[1], currents[1], tables[2], currents[2]));
        assert(turn_like(tables[2], currents[2], tables[3], currents[3]));
        lemma_three_turns_of_three(tables, currents, a, b, c);
        let rest = tables.subrange(3, tables.len() as int);
        let rest_currents = currents.subrange(3, currents.len() as int);
        assert forall|k: int| 0 <= k < rest.len() - 1 implies turn_like(
            #[trigger] rest[k],
            rest_currents[k],
            rest[k + 1],
            rest_currents[k + 1],
        ) by {
            assert(rest[k] == tables[k + 3]);
            assert(turn_like(
                tables[k + 3],
                currents[k + 3],
                tables[k + 3 + 1],
                currents[k + 3 + 1],
            ));
        }
        assert(rest[0] == tables[3]);
        assert(rest_currents[0] == currents[3]);
        lemma_turns_are_fair(rest, rest_currents, a, b, c);
        assert(rest.last() == tables.last());
        assert(n / 3 == (n - 3) / 3 + 1);
    } else if n >= 1 {
        assert(turn_like(tables[0], currents[0], tables[1], currents[1]));
        let x = currents[1];
        lemma_one_turn_of_three(tables[0], tables[1], a, b, c, x);
        if n >= 2 {
            assert(turn_like(tables[1], currents[1], tables[2], currents[2]));
            let y: usize = if x == b {
                c
            } else {
                b
            };
            lemma_one_turn_of_three(tables[1], tables[2], x, y, a, currents[2]);
            assert(currents[2] == y);
        }
    }
}

/// A switch of the scheduler is a turn in the sense of `turn_like`.
pub proof fn lemma_switch_is_a_turn(entries: Seq<Process>, before: Scheduler, after: Scheduler)
    requires
        switch_outcome(entries, before, after, true),
        spec_current_index(entries, before.current_pid) is Some,
    ensures
        turn_like(
            entries,
            spec_current_index(entries, before.current_pid)->0,
            after.table@,
            spec_next_ready_index(entries, spec_current_index(entries, before.current_pid))->0,
        ),
{
    lemma_index_of_bounds(entries, before.current_pid);
}

/// What a scan finds lies in the table.
pub proof fn lemma_first_in_scan_range(entries: Seq<Process>, first: int, k: int, idle: bool)
    requires
        0 <= first < entries.len(),
        0 <= k,
    ensures
        crate::process::table::first_in_scan(entries, first, k, idle) matches Some(index) ==> index
            < entries.len(),
    decreases entries.len() - k,
{
    if k < entries.len() {
        lemma_first_in_scan_range(entries, first, k + 1, idle);
    }
}

/// The slot at which a pid is found is not negative, and where it lies in
/// the table it holds that pid.
pub proof fn lemma_index_of_bounds(entries: Seq<Process>, pid: Pid)
    ensures
        0 <= spec_index_of(entries, pid) <= entries.len(),
        spec_index_of(entries, pid) < entries.len() ==> entries[spec_index_of(entries, pid)].pid
            == pid,
    decreases entries.len(),
{
    if entries.len() > 0 && entries[0].pid != pid {
        lemma_index_of_bounds(entries.drop_first(), pid);
    }
}

/// A pid that stands in slot `i` of a table without duplicates is found there.
pub proof fn lemma_index_of_found(entries: Seq<Process>, pid: Pid, i: int)
    requires
        pids_unique(entries),
        0 <= i < entries.len(),
        entries[i].pid == pid,
    ensures
        spec_index_of(entries, pid) == i,
    decreases entries.len(),
{
    if entries[0].pid != pid {
        let rest = entries.drop_first();
        assert forall|a: int, b: int| 0 <= a < b < rest.len() implies (#[trigger] rest[a]).pid != (
        #[trigger] rest[b]).pid by {
            assert(entries[a + 1].pid != entries[b + 1].pid);
        }
        assert(rest[i - 1] == entries[i]);
        lemma_index_of_found(rest, pid, i - 1);
    } else if i != 0 {
        assert(entries[0].pid != entries[i].pid);
    }
}

/// Gives the processor to the next process, if there is one to give it to.
pub fn schedule_internal(sched: &mut Scheduler) -> (switched: bool)
    requires
        old(sched).wf(),
    ensures
        final(sched).wf(),
        switch_outcome(old(sched).table@, *old(sched), *final(sched), switched),
        !switched ==> *final(sched) == *old(sched),
{
    if sched.table.entries.len() == 0 {
        return false;
    }
    let current_index = match current_pid(sched) {
        Some(pid) => sched.table.find_index_by_pid(pid),
        None => None,
    };
    let next_index = match sched.table.next_ready_index(current_index) {
        Some(index) => index,
        None => { return false; },
    };
    match current_index {
        Some(index) => {
            if index == next_index {
                return false;
            }
        },
        None => {},
    }
    let current_space = match current_index {
        Some(index) => Some(sched.table.entries[index].address_space),
        None => None,
    };
    let next_space = sched.table.entries[next_index].address_space;
    let need_switch = match current_space {
        Some(space) => space.cr3() != next_space.cr3(),
        None => true,
    };
    let saved = sched.cpu.context;
    match current_index {
        Some(index) => {
            depart(sched, index, saved);
        },
        None => {
            sched.boot_context = saved;
        },
    }
    if need_switch {
        sched.cpu.cr3 = next_space.cr3();
    }
    arrive(sched, next_index);
    proof {
        lemma_switch_wf(*old(sched), *sched);
    }
    true
}

/// Gives up the processor of one's own accord. Tells whether another task got it.
pub fn yield_now(sched: &mut Scheduler) -> (switched: bool)
    requires
        old(sched).wf(),
    ensures
        final(sched).wf(),
        switch_outcome(old(sched).table@, *old(sched), *final(sched), switched),
        !switched ==> *final(sched) == *old(sched),
{
    schedule_internal(sched)
}

/// Tries once to give the processor to another task, for a task that can no
/// longer run. Tells whether a task was found; until one is, the attempt is
/// to be made again.
pub fn reschedule(sched: &mut Scheduler) -> (switched: bool)
    requires
        old(sched).wf(),
    ensures
        final(sched).wf(),
        switch_outcome(old(sched).table@, *old(sched), *final(sched), switched),
        !switched ==> *final(sched) == *old(sched),
{
    schedule_internal(sched)
}

/// One round of the scheduler loop at the end of boot: gives the processor
/// to a task, if one is ready.
pub fn start_scheduler(sched: &mut Scheduler) -> (switched: bool)
    requires
        old(sched).wf(),
    ensures
        final(sched).wf(),
        switch_outcome(old(sched).table@, *old(sched), *final(sched), switched),
        !switched ==> *final(sched) == *old(sched),
{
    schedule_internal(sched)
}

/// Marks the process in slot `index` as blocked on `channel`.
fn mark_blocked(sched: &mut Scheduler, index: usize, channel: WaitChannel)
    requires
        old(sched).wf(),
        index < old(sched).table@.len(),
    ensures
        final(sched).wf(),
        *final(sched) == (Scheduler {
            table: ProcessTable { entries: final(sched).table.entries, ..old(sched).table },
            ..*old(sched)
        }),
        final(sched).table@ == old(sched).table@.update(
            index as int,
            spec_blocked(old(sched).table@[index as int], channel),
        ),
{
    sched.table.entries[index].state = ProcessState::Blocked;
    sched.table.entries[index].wait_channel = Some(channel);
    sched.table.entries[index].preempt_return = None;
    proof {
        let entries = old(sched).table@;
        assert(sched.table@ =~= entries.update(index as int, spec_blocked(entries[index as int], channel)));
        lemma_same_pids_wf(*old(sched), *sched);
    }
}

/// A table whose processes kept their pids, idle marks, descriptor tables
/// and regions, and in which no process started to run, is still well formed.
pub proof fn lemma_same_pids_wf(before: Scheduler, after: Scheduler)
    requires
        before.wf(),
        after.table@.len() == before.table@.len(),
        after.table.backing == before.table.backing,
        after.table.next_pid == before.table.next_pid,
        after.table.idle_pid == before.table.idle_pid,
        after.table.initialized == before.table.initialized,
        after.current_pid == before.current_pid,
        forall|i: int|
            0 <= i < before.table@.len() ==> (#[trigger] after.table@[i]).pid == before.table@[i].pid
                && after.table@[i].is_idle == before.table@[i].is_idle && after.table@[i].wf()
                && (after.table@[i].state == ProcessState::Running ==> before.table@[i].state
                == ProcessState::Running),
    ensures
        after.wf(),
{
    assert forall|i: int, j: int| 0 <= i < j < after.table@.len() implies (
    #[trigger] after.table@[i]).pid != (#[trigger] after.table@[j]).pid by {
        assert(before.table@[i].pid != before.table@[j].pid);
    }
    assert forall|i: int| 0 <= i < after.table@.len() implies 1 <= (
    #[trigger] after.table@[i]).pid < after.table.next_pid by {
        assert(1 <= before.table@[i].pid < before.table.next_pid);
    }
    assert forall|i: int| 0 <= i < after.table@.len() implies ((
    #[trigger] after.table@[i]).is_idle <==> after.table.idle_pid == Some(after.table@[i].pid)) by {
        assert(before.table@[i].is_idle <==> before.table.idle_pid == Some(before.table@[i].pid));
    }
    assert forall|i: int|
        0 <= i < after.table@.len() && (#[trigger] after.table@[i]).state
            == ProcessState::Running implies after.table@[i].pid == after.current_pid by {
        assert(before.table@[i].state == ProcessState::Running);
    }
}

/// A scheduler in which one process changed, keeping its pid and idle mark,
/// staying well formed and not starting to run, is still well formed.
pub proof fn lemma_one_changed_wf(before: Scheduler, after: Scheduler, index: int)
    requires
        before.wf(),
        0 <= index < before.table@.len(),
        after.table@.len() == before.table@.len(),
        after.table.backing == before.table.backing,
        after.table.next_pid == before.table.next_pid,
        after.table.idle_pid == before.table.idle_pid,
        after.table.initialized == before.table.initialized,
        after.current_pid == before.current_pid,
        forall|i: int|
            0 <= i < before.table@.len() && i != index ==> #[trigger] after.table@[i]
                == before.table@[i],
        after.table@[index].pid == before.table@[index].pid,
        after.table@[index].is_idle == before.table@[index].is_idle,
        after.table@[index].wf(),
        after.table@[index].state == ProcessState::Running ==> before.table@[index].state
            == ProcessState::Running,
    ensures
        after.wf(),
{
    assert forall|i: int| 0 <= i < before.table@.len() implies (#[trigger] after.table@[i]).pid
        == before.table@[i].pid && after.table@[i].is_idle == before.table@[i].is_idle
        && after.table@[i].wf() && (after.table@[i].state == ProcessState::Running
        ==> before.table@[i].state == ProcessState::Running) by {
        assert(before.table@[i].wf());
    }
    lemma_same_pids_wf(before, after);
}

/// Blocks the current process on `channel` and tries to give the processor
/// to another task. Tells whether one was found. Fails where no process is
/// current.
pub fn block_current(sched: &mut Scheduler, channel: WaitChannel) -> (res: Result<bool, ProcessError>)
    requires
        old(sched).wf(),
    ensures
        final(sched).wf(),
        ({
            let entries = old(sched).table@;
            match spec_current_index(entries, old(sched).current_pid) {
                None => res == Err::<bool, ProcessError>(ProcessError::ProcessNotFound) && *final(sched)
                    == *old(sched),
                Some(index) => res is Ok && switch_outcome(
                    entries.update(index as int, spec_blocked(entries[index as int], channel)),
                    *old(sched),
                    *final(sched),
                    res->Ok_0,
                ),
            }
        }),
{
    let pid = match current_pid(sched) {
        Some(pid) => pid,
        None => { return Err(ProcessError::ProcessNotFound); },
    };
    let index = match sched.table.find_index_by_pid(pid) {
        Some(index) => index,
        None => { return Err(ProcessError::ProcessNotFound); },
    };
    mark_blocked(sched, index, channel);
    let ghost blocked = *sched;
    let switched = reschedule(sched);
    proof {
        assert(switch_outcome(blocked.table@, blocked, *sched, switched));
    }
    Ok(switched)
}

/// Two tables with the same pids in the same slots find a pid in the same slot.
pub proof fn lemma_index_of_same_pids(a: Seq<Process>, b: Seq<Process>, pid: Pid)
    requires
        a.len() == b.len(),
        forall|i: int| 0 <= i < a.len() ==> (#[trigger] a[i]).pid == b[i].pid,
    ensures
        spec_index_of(a, pid) == spec_index_of(b, pid),
    decreases a.len(),
{
    if a.len() > 0 {
        assert(a[0].pid == b[0].pid);
        if a[0].pid != pid {
            assert forall|i: int| 0 <= i < a.drop_first().len() implies (
            #[trigger] a.drop_first()[i]).pid == b.drop_first()[i].pid by {
                assert(a[i + 1].pid == b[i + 1].pid);
            }
            lemma_index_of_same_pids(a.drop_first(), b.drop_first(), pid);
        }
    }
}

/// Wakes every process that is blocked on a channel that `event` matches:
/// it is ready afterwards, with no channel. No other process changes.
pub fn wake_channel(sched: &mut Scheduler, event: WaitChannel)
    requires
        old(sched).wf(),
    ensures
        final(sched).wf(),
        *final(sched) == (Scheduler {
            table: ProcessTable { entries: final(sched).table.entries, ..old(sched).table },
            ..*old(sched)
        }),
        final(sched).table@.len() == old(sched).table@.len(),
        forall|i: int|
            0 <= i < old(sched).table@.len() ==> #[trigger] final(sched).table@[i] == spec_woken(
                old(sched).table@[i],
                event,
            ),
{
    let len = sched.table.entries.len();
    let mut i: usize = 0;
    while i < len
        invariant
            i <= len,
            len == old(sched).table@.len(),
            sched.table@.len() == len,
            *sched == (Scheduler {
                table: ProcessTable { entries: sched.table.entries, ..old(sched).table },
                ..*old(sched)
            }),
            forall|j: int|
                0 <= j < i ==> #[trigger] sched.table@[j] == spec_woken(old(sched).table@[j], event),
            forall|j: int| i <= j < len ==> #[trigger] sched.table@[j] == old(sched).table@[j],
        decreases len - i,
    {
        let blocked = match sched.table.entries[i].state {
            ProcessState::Blocked => true,
            _ => false,
        };
        if blocked {
            match sched.table.entries[i].wait_channel {
                Some(channel) => {
                    if channel.matches_event(event) {
                        sched.table.entries[i].wait_channel = None;
                        sched.table.entries[i].state = ProcessState::Ready;
                        sched.table.entries[i].preempt_return = None;
                    }
                },
                None => {},
            }
        }
        i += 1;
    }
    proof {
        assert forall|i: int| 0 <= i < old(sched).table@.len() implies (
        #[trigger] sched.table@[i]).pid == old(sched).table@[i].pid && sched.table@[i].is_idle == old(sched).table@[i].is_idle && sched.table@[i].wf() && (sched.table@[i].state
            == ProcessState::Running ==> old(sched).table@[i].state == ProcessState::Running) by {
            assert(sched.table@[i] == spec_woken(old(sched).table@[i], event));
            assert(old(sched).table@[i].wf());
        }
        lemma_same_pids_wf(*old(sched), *sched);
    }
}

/// What waking on `Child(p)` does: every process that waits for child `p`
/// or for any child is ready afterwards, and no other process became ready.
pub proof fn lemma_wake_child(process: Process, p: Pid)
    ensures
        process.state == ProcessState::Blocked && (process.wait_channel == Some(WaitChannel::Child(p))
            || process.wait_channel == Some(WaitChannel::ChildAny)) ==> spec_woken(
            process,
            WaitChannel::Child(p),
        ).state == ProcessState::Ready && spec_woken(process, WaitChannel::Child(p)).wait_channel
            is None,
        !(process.state == ProcessState::Blocked && (process.wait_channel == Some(
            WaitChannel::Child(p),
        ) || process.wait_channel == Some(WaitChannel::ChildAny))) ==> spec_woken(
            process,
            WaitChannel::Child(p),
        ) == process,
{
}

/// The table after `event` woke everyone whom it matches.
pub open spec fn spec_woken_all(entries: Seq<Process>, event: WaitChannel) -> Seq<Process> {
    Seq::new(entries.len(), |i: int| spec_woken(entries[i], event))
}

/// The table after one attempt to change the running task, with the
/// registers `saved` in the processor.
pub open spec fn spec_schedule_entries(entries: Seq<Process>, current_pid: Pid, saved: Context) -> Seq<
    Process,
> {
    let current = spec_current_index(entries, current_pid);
    let next = spec_next_ready_index(entries, current);
    if next is Some && next != current {
        Seq::new(entries.len(), |i: int| spec_after_switch(entries[i], i, current, next->0, saved))
    } else {
        entries
    }
}

/// The pid that is current after one attempt to change the running task.
pub open spec fn spec_schedule_pid(entries: Seq<Process>, current_pid: Pid) -> Pid {
    let current = spec_current_index(entries, current_pid);
    let next = spec_next_ready_index(entries, current);
    if next is Some && next != current {
        entries[next->0 as int].pid
    } else {
        current_pid
    }
}

/// The switch at the end of a preemption is a turn in the sense of
/// `turn_like`, wherever it changes the running task: that the parked
/// address of one process is used up afterwards changes no state and no
/// time slice.
pub proof fn lemma_preemption_is_a_turn(entries: Seq<Process>, current_pid: Pid, saved: Context, index: int)
    requires
        spec_current_index(entries, current_pid) is Some,
        spec_next_ready_index(entries, spec_current_index(entries, current_pid)) is Some,
        spec_next_ready_index(entries, spec_current_index(entries, current_pid)) != spec_current_index(
            entries,
            current_pid,
        ),
        0 <= index < entries.len(),
    ensures
        ({
            let mid = spec_schedule_entries(entries, current_pid, saved);
            turn_like(
                entries,
                spec_current_index(entries, current_pid)->0,
                mid.update(index, Process { preempt_return: None, ..mid[index] }),
                spec_next_ready_index(entries, spec_current_index(entries, current_pid))->0,
            )
        }),
{
    lemma_index_of_bounds(entries, current_pid);
}

/// The outcome of an attempt to change the running task, as a table and a pid.
pub proof fn lemma_switch_outcome(entries: Seq<Process>, before: Scheduler, after: Scheduler, switched: bool)
    requires
        switch_outcome(entries, before, after, switched),
    ensures
        after.table@ == spec_schedule_entries(entries, before.current_pid, before.cpu.context),
        after.current_pid == spec_schedule_pid(entries, before.current_pid),
{
    assert(after.table@ =~= spec_schedule_entries(entries, before.current_pid, before.cpu.context));
}

/// The slot of the process that a timer tick may preempt: the current
/// process, where the interrupted code ran in the kernel's half of the
/// address space, the table is not in use, and the process is running, is
/// not the idle task, and is not being preempted already.
pub open spec fn spec_preemptible(entries: Seq<Process>, current_pid: Pid, rip: u64, lock_free: bool) -> Option<
    int,
> {
    let index = spec_index_of(entries, current_pid);
    if rip >= KERNEL_VMA_BASE && rip >> 48 == 0xFFFF && current_pid != 0 && lock_free && index
        < entries.len() && entries[index].state == ProcessState::Running && !entries[index].is_idle
        && entries[index].preempt_return is None {
        Some(index)
    } else {
        None
    }
}

/// Asks the running task to give up the processor, at a timer tick.
///
/// The request is always noted. Where the current process may be preempted,
/// the address at which it was interrupted is parked in its control block,
/// and the frame is made to return to the preempt trampoline instead. No
/// other register of the frame changes. `lock_free` tells whether the table
/// could be taken without waiting: if not, preemption waits for the next tick.
pub fn request_preempt(
    sched: &mut Scheduler,
    frame: &mut InterruptFrame,
    preempt_trampoline: u64,
    lock_free: bool,
)
    requires
        old(sched).wf(),
    ensures
        final(sched).wf(),
        *final(sched) == (Scheduler {
            table: ProcessTable { entries: final(sched).table.entries, ..old(sched).table },
            need_resched: true,
            ..*old(sched)
        }),
        match spec_preemptible(old(sched).table@, old(sched).current_pid, old(frame).rip, lock_free) {
            None => final(sched).table@ == old(sched).table@ && *final(frame) == *old(frame),
            Some(index) => final(sched).table@ == old(sched).table@.update(
                index,
                Process { preempt_return: Some(old(frame).rip), ..old(sched).table@[index] },
            ) && *final(frame) == (InterruptFrame { rip: preempt_trampoline, ..*old(frame) }),
        },
{
    sched.need_resched = true;
    let rip = frame.rip;
    if rip < KERNEL_VMA_BASE {
        return ;
    }
    if (rip >> 48) != 0xFFFF {
        return ;
    }
    let pid = match current_pid(sched) {
        Some(pid) => pid,
        None => { return ; },
    };
    if !lock_free {
        return ;
    }
    let index = match sched.table.find_index_by_pid(pid) {
        Some(index) => index,
        None => { return ; },
    };
    let running = match sched.table.entries[index].state {
        ProcessState::Running => true,
        _ => false,
    };
    if !running || sched.table.entries[index].is_idle {
        return ;
    }
    if sched.table.entries[index].preempt_return.is_some() {
        return ;
    }
    sched.table.entries[index].preempt_return = Some(rip);
    frame.rip = preempt_trampoline;
    proof {
        assert(sched.table@ =~= old(sched).table@.update(
            index as int,
            Process { preempt_return: Some(rip), ..old(sched).table@[index as int] },
        ));
        assert(old(sched).table@[index as int].wf());
        lemma_one_changed_wf(*old(sched), *sched, index as int);
    }
}

/// Where a process goes on when it gets the processor back: at the address
/// that was parked when it was preempted, or where its context says.
pub open spec fn spec_resume_target(process: Process) -> u64 {
    match process.preempt_return {
        Some(rip) => rip,
        None => process.context.rip,
    }
}

/// The second half of a preemption, run by the preempted task on the
/// preempt trampoline: the request is taken back, one attempt is made to
/// give the processor to another task, and the process that is then
/// current is told where to go on. The parked address is used up.
pub fn preempt_do_switch(sched: &mut Scheduler) -> (target: u64)
    requires
        old(sched).wf(),
        spec_current_index(old(sched).table@, old(sched).current_pid) is Some,
    ensures
        final(sched).wf(),
        !final(sched).need_resched,
        ({
            let mid = spec_schedule_entries(
                old(sched).table@,
                old(sched).current_pid,
                old(sched).cpu.context,
            );
            let pid = spec_schedule_pid(old(sched).table@, old(sched).current_pid);
            let index = spec_index_of(mid, pid);
            &&& final(sched).current_pid == pid
            &&& 0 <= index < mid.len()
            &&& target == spec_resume_target(mid[index])
            &&& final(sched).table@ == mid.update(index, Process { preempt_return: None, ..mid[index] })
        }),
{
    sched.need_resched = false;
    let ghost start = *sched;
    let switched = reschedule(sched);
    proof {
        lemma_switch_outcome(start.table@, start, *sched, switched);
        lemma_index_of_bounds(start.table@, start.current_pid);
        lemma_next_ready_in_range(
            start.table@,
            spec_current_index(start.table@, start.current_pid),
        );
        if switched {
            let next = spec_next_ready_index(
                start.table@,
                spec_current_index(start.table@, start.current_pid),
            )->0 as int;
            lemma_index_of_found(sched.table@, sched.current_pid, next);
        }
        lemma_index_of_bounds(sched.table@, sched.current_pid);
    }
    let pid = sched.current_pid;
    let index = match sched.table.find_index_by_pid(pid) {
        Some(index) => index,
        None => {
            assert(false);
            0
        },
    };
    let ghost mid = *sched;
    let target = match sched.table.entries[index].take_preempt_return() {
        Some(rip) => rip,
        None => sched.table.entries[index].context.rip,
    };
    proof {
        assert(sched.table@ =~= mid.table@.update(
            index as int,
            Process { preempt_return: None, ..mid.table@[index as int] },
        ));
        assert(mid.table@[index as int].wf());
        lemma_one_changed_wf(mid, *sched, index as int);
    }
    target
}

/// Preemption is not seen by the preempted task. A task that was preempted
/// at `rip` has that address parked; the parked address and the task's
/// other state stay as they are while the processor is taken from it and
/// given back; the registers that it gets back are those that were saved;
/// and it goes on at `rip`.
pub proof fn lemma_preemption_transparent(
    process: Process,
    slot: int,
    other: usize,
    rip: u64,
    saved: Context,
    later: Context,
)
    requires
        other != slot,
        0 <= slot <= usize::MAX,
    ensures
        ({
            let preempted = Process { preempt_return: Some(rip), ..process };
            let away = spec_after_switch(preempted, slot, Some(slot as usize), other, saved);
            let back = spec_after_switch(away, slot, Some(other), slot as usize, later);
            &&& away.context == saved
            &&& away.preempt_return == Some(rip)
            &&& back.context == saved
            &&& back.state == ProcessState::Running
            &&& spec_resume_target(back) == rip
        }),
{
}

/// The table after the process `pid` has exited with `code`: it is a zombie,
/// and who waited for a child of its parent is woken.
pub open spec fn spec_exit_table(entries: Seq<Process>, pid: Pid, code: i32) -> Seq<Process> {
    let index = spec_index_of(entries, pid);
    let exited = entries.update(index, spec_exited(entries[index], code));
    match entries[index].parent {
        Some(parent) => spec_woken_all(exited, WaitChannel::Child(parent)),
        None => exited,
    }
}

/// Ends the current process with `exit_code`: it is a zombie until its
/// parent reaps it. Who waits for a child of its parent is woken, and one
/// attempt is made to give the processor to another task. Tells whether
/// one was found.
pub fn exit_current(sched: &mut Scheduler, exit_code: i32) -> (switched: bool)
    requires
        old(sched).wf(),
        spec_current_index(old(sched).table@, old(sched).current_pid) is Some,
    ensures
        final(sched).wf(),
        switch_outcome(
            spec_exit_table(old(sched).table@, old(sched).current_pid, exit_code),
            *old(sched),
            *final(sched),
            switched,
        ),
{
    let pid = sched.current_pid;
    proof {
        lemma_index_of_bounds(sched.table@, pid);
    }
    let index = match sched.table.find_index_by_pid(pid) {
        Some(index) => index,
        None => {
            assert(false);
            0
        },
    };
    sched.table.entries[index].state = ProcessState::Zombie;
    sched.table.entries[index].wait_channel = None;
    sched.table.entries[index].exit_code = Some(exit_code);
    sched.table.entries[index].preempt_return = None;
    let parent = sched.table.entries[index].parent;
    proof {
        let entries = old(sched).table@;
        assert(sched.table@ =~= entries.update(
            index as int,
            spec_exited(entries[index as int], exit_code),
        ));
        assert(entries[index as int].wf());
        lemma_one_changed_wf(*old(sched), *sched, index as int);
    }
    let ghost exited = sched.table@;
    match parent {
        Some(parent_pid) => {
            wake_channel(sched, WaitChannel::Child(parent_pid));
            assert(sched.table@ =~= spec_woken_all(exited, WaitChannel::Child(parent_pid)));
        },
        None => {},
    }
    let ghost woken = *sched;
    let switched = reschedule(sched);
    proof {
        assert(switch_outcome(woken.table@, woken, *sched, switched));
    }
    switched
}

/// A table stays well formed when a process leaves it.
pub proof fn lemma_remove_keeps_running(entries: Seq<Process>, index: int, current_pid: Pid)
    requires
        0 <= index < entries.len(),
        running_is_current(entries, current_pid),
    ensures
        running_is_current(spec_swap_remove(entries, index), current_pid),
{
    let after = spec_swap_remove(entries, index);
    assert forall|i: int|
        0 <= i < after.len() && (#[trigger] after[i]).state
            == ProcessState::Running implies after[i].pid == current_pid by {
        let k = if i == index { entries.len() - 1 } else { i };
        assert(after[i] == entries[k]);
    }
}

/// Waits for a child of the current process to exit.
///
/// The call fails where no process is current, and where the current
/// process has no child, or none with the pid `target`. A child that has
/// exited is reaped: it leaves the table, what it owned goes back to the
/// heap, and its pid and exit code are returned. Otherwise the caller is
/// blocked, on the child that `target` names or on any child, and one
/// attempt is made to give the processor to another task.
pub fn wait_for_child(sched: &mut Scheduler, heap: &mut KernelAllocator, target: Option<Pid>) -> (res:
    Result<WaitOutcome, ProcessError>)
    requires
        old(sched).wf(),
        old(heap).wf(),
    ensures
        final(sched).wf(),
        final(heap).wf(),
        final(heap).start == old(heap).start,
        final(heap).size == old(heap).size,
        ({
            let entries = old(sched).table@;
            let current = old(sched).current_pid;
            let zombie = spec_zombie_index(entries, current, target);
            if current == 0 {
                res == Err::<WaitOutcome, ProcessError>(ProcessError::ProcessNotFound) && *final(sched)
                    == *old(sched) && *final(heap) == *old(heap)
            } else if !(exists|i: int|
                0 <= i < entries.len() && is_child(#[trigger] entries[i], current, target)) {
                res == Err::<WaitOutcome, ProcessError>(
                    if target is Some {
                        ProcessError::ChildNotFound
                    } else {
                        ProcessError::NoChildren
                    },
                ) && *final(sched) == *old(sched) && *final(heap) == *old(heap)
            } else if zombie < entries.len() {
                &&& res == Ok::<WaitOutcome, ProcessError>(
                    WaitOutcome::Reaped(
                        entries[zombie].pid,
                        match entries[zombie].exit_code {
                            Some(code) => code,
                            None => 0i32,
                        },
                    ),
                )
                &&& final(sched).table@ == spec_swap_remove(entries, zombie)
                &&& final(sched).current_pid == current
                &&& final(sched).cpu == old(sched).cpu
                &&& final(heap).list@ == spec_release_process(old(heap).list@, entries[zombie])
            } else if spec_index_of(entries, current) >= entries.len() {
                res == Err::<WaitOutcome, ProcessError>(ProcessError::ProcessNotFound) && *final(sched)
                    == *old(sched) && final(heap).list@ == old(heap).list@
            } else {
                let index = spec_index_of(entries, current);
                let channel = match target {
                    Some(pid) => WaitChannel::Child(pid),
                    None => WaitChannel::ChildAny,
                };
                &&& res matches Ok(WaitOutcome::Blocked(switched)) && switch_outcome(
                    entries.update(index, spec_blocked(entries[index], channel)),
                    *old(sched),
                    *final(sched),
                    switched,
                )
                &&& final(heap).list@ == old(heap).list@
            }
        }),
{
    let current = match current_pid(sched) {
        Some(pid) => pid,
        None => { return Err(ProcessError::ProcessNotFound); },
    };
    if !sched.table.has_child(current, target) {
        return if target.is_some() {
            Err(ProcessError::ChildNotFound)
        } else {
            Err(ProcessError::NoChildren)
        };
    }
    match sched.table.take_zombie_child(heap, current, target) {
        Some((pid, code)) => {
            proof {
                lemma_zombie_index_bounds(old(sched).table@, current, target);
                lemma_remove_keeps_running(
                    old(sched).table@,
                    spec_zombie_index(old(sched).table@, current, target),
                    current,
                );
            }
            return Ok(WaitOutcome::Reaped(pid, code));
        },
        None => {},
    }
    proof {
        lemma_index_of_bounds(sched.table@, current);
    }
    let index = match sched.table.find_index_by_pid(current) {
        Some(index) => index,
        None => { return Err(ProcessError::ProcessNotFound); },
    };
    let wait_channel = match target {
        Some(pid) => WaitChannel::Child(pid),
        None => WaitChannel::ChildAny,
    };
    mark_blocked(sched, index, wait_channel);
    let ghost blocked = *sched;
    let switched = reschedule(sched);
    proof {
        assert(switch_outcome(blocked.table@, blocked, *sched, switched));
    }
    Ok(WaitOutcome::Blocked(switched))
}

/// The slot of the first child to reap is not negative.
pub proof fn lemma_zombie_index_bounds(entries: Seq<Process>, parent: Pid, target: Option<Pid>)
    ensures
        0 <= spec_zombie_index(entries, parent, target) <= entries.len(),
    decreases entries.len(),
{
    if entries.len() > 0 && !(is_child(entries[0], parent, target) && entries[0].state
        == ProcessState::Zombie) {
        lemma_zombie_index_bounds(entries.drop_first(), parent, target);
    }
}

} // verus!
