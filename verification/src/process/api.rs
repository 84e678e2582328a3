//! Making processes, looking at them, and giving them memory.

use vstd::prelude::*;
use crate::mem::heap::{
    effective_align, effective_size, first_fit, spec_carve, spec_free, KernelAllocator, Layout,
};
use crate::process::fd::FileDescriptor;
use crate::process::pcb::{spec_return_slot, KernelEnv, Process};
use crate::process::regions::{spec_position, spec_register, spec_swap_remove, OwnedRegion};
use crate::process::sched::{
    current_pid, lemma_index_of_bounds, lemma_one_changed_wf, running_is_current, Scheduler,
};
use crate::process::table::{
    lemma_spawn_plan_result, spec_index_of, spec_inherited_credentials, spec_spawn_kernel,
    ProcessTable,
};
use crate::process::types::{
    AddressSpace, Context, MemoryPermissions, MemoryRegionKind, Pid, ProcessError, ProcessState,
    UserStack, WaitChannel,
};
use crate::user::Credentials;

verus! {

/// What a process looks like from outside, at one moment.
#[derive(Clone, Copy, Debug)]
pub struct ProcessSnapshot {
    pub pid: Pid,
    pub parent: Option<Pid>,
    pub name: &'static str,
    pub state: ProcessState,
    pub cpu_slices: u64,
    pub is_idle: bool,
    pub credentials: Credentials,
    pub address_space: AddressSpace,
    pub user_stack: Option<UserStack>,
    pub user_entry: Option<u64>,
}

impl ProcessSnapshot {
    pub open spec fn spec_from(process: Process) -> ProcessSnapshot {
        ProcessSnapshot {
            pid: process.pid,
            parent: process.parent,
            name: process.name,
            state: process.state,
            cpu_slices: process.cpu_slices,
            is_idle: process.is_idle,
            credentials: process.credentials,
            address_space: process.address_space,
            user_stack: process.user_stack,
            user_entry: process.user_entry,
        }
    }

    pub fn from(process: &Process) -> (snapshot: ProcessSnapshot)
        ensures
            snapshot == Self::spec_from(*process),
    {
        ProcessSnapshot {
            pid: process.pid,
            parent: process.parent,
            name: process.name,
            state: process.state,
            cpu_slices: process.cpu_slices,
            is_idle: process.is_idle,
            credentials: process.credentials,
            address_space: process.address_space,
            user_stack: process.user_stack,
            user_entry: process.user_entry,
        }
    }

    pub fn pid(&self) -> (pid: Pid)
        ensures
            pid == self.pid,
    {
        self.pid
    }

    pub fn parent(&self) -> (parent: Option<Pid>)
        ensures
            parent == self.parent,
    {
        self.parent
    }

    pub fn name(&self) -> (name: &'static str)
        ensures
            name == self.name,
    {
        self.name
    }

    pub fn state(&self) -> (state: ProcessState)
        ensures
            state == self.state,
    {
        self.state
    }

    pub fn cpu_slices(&self) -> (slices: u64)
        ensures
            slices == self.cpu_slices,
    {
        self.cpu_slices
    }

    pub fn is_idle(&self) -> (idle: bool)
        ensures
            idle == self.is_idle,
    {
        self.is_idle
    }

    pub fn credentials(&self) -> (credentials: Credentials)
        ensures
            credentials == self.credentials,
    {
        self.credentials
    }

    pub fn address_space(&self) -> (space: AddressSpace)
        ensures
            space == self.address_space,
    {
        self.address_space
    }

    pub fn user_stack(&self) -> (stack: Option<UserStack>)
        ensures
            stack == self.user_stack,
    {
        self.user_stack
    }

    pub fn user_entry(&self) -> (entry: Option<u64>)
        ensures
            entry == self.user_entry,
    {
        self.user_entry
    }
}

/// How many processes are in which state, and how often the processor was
/// handed out.
#[derive(Clone, Copy, Debug, PartialEq, Eq, Structural)]
pub struct SchedulerStats {
    pub total: usize,
    pub ready: usize,
    pub running: usize,
    pub blocked: usize,
    pub zombie: usize,
    pub total_slices: u64,
    pub need_resched: bool,
}

impl SchedulerStats {
    pub fn empty() -> (stats: SchedulerStats)
        ensures
            stats == (SchedulerStats {
                total: 0,
                ready: 0,
                running: 0,
                blocked: 0,
                zombie: 0,
                total_slices: 0,
                need_resched: false,
            }),
    {
        SchedulerStats {
            total: 0,
            ready: 0,
            running: 0,
            blocked: 0,
            zombie: 0,
            total_slices: 0,
            need_resched: false,
        }
    }
}

/// The number of processes in state `state`.
pub open spec fn spec_count(entries: Seq<Process>, state: ProcessState) -> int
    decreases entries.len(),
{
    if entries.len() == 0 {
        0
    } else {
        spec_count(entries.drop_last(), state) + (if entries.last().state == state { 1int } else { 0 })
    }
}

/// The time slices of all processes together, held at the largest number.
pub open spec fn spec_total_slices(entries: Seq<Process>) -> int
    decreases entries.len(),
{
    if entries.len() == 0 {
        0
    } else {
        let before = spec_total_slices(entries.drop_last());
        if before + entries.last().cpu_slices > u64::MAX {
            u64::MAX as int
        } else {
            before + entries.last().cpu_slices
        }
    }
}

/// The processes of one state are no more than all processes.
pub proof fn lemma_count_bounded(entries: Seq<Process>, state: ProcessState)
    ensures
        0 <= spec_count(entries, state) <= entries.len(),
    decreases entries.len(),
{
    if entries.len() > 0 {
        lemma_count_bounded(entries.drop_last(), state);
    }
}

/// Sets the process table up: the idle task is made, once.
pub fn init(sched: &mut Scheduler, heap: &mut KernelAllocator, env: &KernelEnv) -> (res: Result<
    (),
    ProcessError,
>)
    requires
        old(sched).wf(),
        old(heap).wf(),
    ensures
        final(sched).wf(),
        final(heap).wf(),
        final(heap).start == old(heap).start,
        final(heap).size == old(heap).size,
        final(sched).table.initialized,
        old(sched).table.initialized ==> res is Ok && *final(sched) == *old(sched) && *final(heap)
            == *old(heap),
        !old(sched).table.initialized ==> ({
            let plan = spec_spawn_kernel(old(sched).table, old(heap).list@);
            &&& final(heap).list@ == plan.list
            &&& final(sched).current_pid == old(sched).current_pid
            &&& final(sched).need_resched == old(sched).need_resched
            &&& final(sched).cpu == old(sched).cpu
            &&& final(sched).table.init_pid == old(sched).table.init_pid
            &&& final(sched).table.backing == plan.table_backing
            &&& res is Ok ==> plan.result == Ok::<Pid, ProcessError>(old(sched).table.next_pid)
                && final(sched).table.next_pid == old(sched).table.next_pid + 1
            &&& match plan.result {
                Err(e) => res == Err::<(), ProcessError>(e) && final(sched).table@ == old(sched).table@,
                Ok(pid) => res is Ok && final(sched).table.idle_pid == Some(pid) && final(sched).table@ == old(sched).table@.push(final(sched).table@.last()) && final(sched).table@.last().is_fresh(
                    pid,
                    "idle",
                    None,
                    Credentials::spec_root(),
                    true,
                    plan.stack_ptr,
                    *env,
                ) && final(sched).table@.last().context.rip == env.symbols.idle_task && final(sched).table@.last().user_stack is None && final(sched).table@.last().user_entry is None
                    && final(sched).table@.last().address_space == AddressSpace::spec_kernel(
                    env.kernel_cr3,
                ),
            }
        }),
{
    proof {
        lemma_spawn_plan_result(
            sched.table.next_pid,
            sched.table.backing,
            sched.table@.len(),
            heap.list@,
        );
    }
    if sched.table.initialized {
        return Ok(());
    }
    sched.table.initialized = true;
    let res = sched.table.spawn_kernel_process(heap, env, "idle", None, env.symbols.idle_task, true);
    proof {
        lemma_spawn_keeps_running(old(sched).table@, sched.table@, sched.current_pid);
    }
    match res {
        Ok(_) => Ok(()),
        Err(e) => Err(e),
    }
}

/// A table that got a ready process at its end, or did not change, has no
/// new running process.
pub proof fn lemma_spawn_keeps_running(before: Seq<Process>, after: Seq<Process>, current_pid: Pid)
    requires
        running_is_current(before, current_pid),
        after == before || (after.len() > 0 && after == before.push(after.last())
            && after.last().state == ProcessState::Ready),
    ensures
        running_is_current(after, current_pid),
{
    assert forall|i: int|
        0 <= i < after.len() && (#[trigger] after[i]).state
            == ProcessState::Running implies after[i].pid == current_pid by {
        if after != before {
            if i < before.len() {
                assert(before.push(after.last())[i] == before[i]);
            }
        }
    }
}

/// Makes a kernel task that starts at `entry`, as a child of the current process.
pub fn spawn_kernel_process(
    sched: &mut Scheduler,
    heap: &mut KernelAllocator,
    env: &KernelEnv,
    name: &'static str,
    entry: u64,
) -> (res: Result<Pid, ProcessError>)
    requires
        old(sched).wf(),
        old(heap).wf(),
    ensures
        final(sched).wf(),
        final(heap).wf(),
        final(heap).start == old(heap).start,
        final(heap).size == old(heap).size,
        final(sched).current_pid == old(sched).current_pid,
        final(sched).cpu == old(sched).cpu,
        final(sched).need_resched == old(sched).need_resched,
        !old(sched).table.initialized ==> res == Err::<Pid, ProcessError>(
            ProcessError::NotInitialized,
        ) && *final(sched) == *old(sched) && *final(heap) == *old(heap),
        old(sched).table.initialized ==> ({
            let plan = spec_spawn_kernel(old(sched).table, old(heap).list@);
            let parent = if old(sched).current_pid == 0 {
                None
            } else {
                Some(old(sched).current_pid)
            };
            &&& res == plan.result
            &&& final(heap).list@ == plan.list
            &&& final(sched).table.backing == plan.table_backing
            &&& res is Err ==> final(sched).table@ == old(sched).table@
            &&& final(sched).table.idle_pid == old(sched).table.idle_pid
            &&& res matches Ok(pid) ==> pid == old(sched).table.next_pid && final(sched).table.next_pid == pid + 1 && final(sched).table.init_pid == (if old(sched).table.init_pid is None {
                Some(pid)
            } else {
                old(sched).table.init_pid
            })
            &&& res matches Ok(pid) ==> final(sched).table@ == old(sched).table@.push(
                final(sched).table@.last(),
            ) && final(sched).table@.last().is_fresh(
                pid,
                name,
                parent,
                spec_inherited_credentials(old(sched).table@, parent),
                false,
                plan.stack_ptr,
                *env,
            ) && final(sched).table@.last().context == (Context {
                rsp: spec_return_slot(plan.stack_ptr),
                rbp: spec_return_slot(plan.stack_ptr),
                rip: entry,
                ..Context::spec_new()
            }) && final(sched).table@.last().address_space == AddressSpace::spec_kernel(
                env.kernel_cr3,
            ) && final(sched).table@.last().user_stack is None && final(sched).table@.last().user_entry
                is None
        }),
{
    proof {
        lemma_spawn_plan_result(
            sched.table.next_pid,
            sched.table.backing,
            sched.table@.len(),
            heap.list@,
        );
    }
    if !sched.table.initialized {
        return Err(ProcessError::NotInitialized);
    }
    let parent = current_pid(sched);
    let res = sched.table.spawn_kernel_process(heap, env, name, parent, entry, false);
    proof {
        lemma_spawn_keeps_running(old(sched).table@, sched.table@, sched.current_pid);
    }
    res
}

/// Makes the idle task, where there is none yet.
pub fn spawn_idle_process(
    sched: &mut Scheduler,
    heap: &mut KernelAllocator,
    env: &KernelEnv,
    name: &'static str,
    entry: u64,
) -> (res: Result<Pid, ProcessError>)
    requires
        old(sched).wf(),
        old(heap).wf(),
    ensures
        final(sched).wf(),
        final(heap).wf(),
        final(heap).start == old(heap).start,
        final(heap).size == old(heap).size,
        final(sched).current_pid == old(sched).current_pid,
        final(sched).cpu == old(sched).cpu,
        !old(sched).table.initialized ==> res == Err::<Pid, ProcessError>(
            ProcessError::NotInitialized,
        ) && *final(sched) == *old(sched) && *final(heap) == *old(heap),
        old(sched).table.initialized && old(sched).table.idle_pid is Some ==> res == Err::<
            Pid,
            ProcessError,
        >(ProcessError::IdleAlreadyExists) && *final(sched) == *old(sched) && *final(heap) == *old(heap),
        old(sched).table.initialized && old(sched).table.idle_pid is None ==> ({
            let plan = spec_spawn_kernel(old(sched).table, old(heap).list@);
            &&& res == plan.result
            &&& final(heap).list@ == plan.list
            &&& res is Err ==> final(sched).table@ == old(sched).table@
            &&& res matches Ok(pid) ==> final(sched).table.idle_pid == Some(pid) && final(sched).table@ == old(sched).table@.push(final(sched).table@.last()) && final(sched).table@.last().is_fresh(
                pid,
                name,
                None,
                Credentials::spec_root(),
                true,
                plan.stack_ptr,
                *env,
            ) && final(sched).table@.last().context.rip == entry && final(sched).table@.last().user_stack is None && final(sched).table@.last().user_entry is None
                && final(sched).table@.last().address_space == AddressSpace::spec_kernel(
                env.kernel_cr3,
            )
        }),
{
    proof {
        lemma_spawn_plan_result(
            sched.table.next_pid,
            sched.table.backing,
            sched.table@.len(),
            heap.list@,
        );
    }
    if !sched.table.initialized {
        return Err(ProcessError::NotInitialized);
    }
    if sched.table.idle_pid.is_some() {
        return Err(ProcessError::IdleAlreadyExists);
    }
    let res = sched.table.spawn_kernel_process(heap, env, name, None, entry, true);
    proof {
        lemma_spawn_keeps_running(old(sched).table@, sched.table@, sched.current_pid);
    }
    res
}

/// A snapshot of the process with the given pid.
pub fn get_process(sched: &Scheduler, pid: Pid) -> (snapshot: Option<ProcessSnapshot>)
    ensures
        snapshot == (if spec_index_of(sched.table@, pid) < sched.table@.len() {
            Some(ProcessSnapshot::spec_from(sched.table@[spec_index_of(sched.table@, pid)]))
        } else {
            None
        }),
{
    match sched.table.get(pid) {
        Some(process) => Some(ProcessSnapshot::from(process)),
        None => None,
    }
}

/// Counts the processes by state and adds up their time slices.
pub fn scheduler_stats(sched: &Scheduler) -> (stats: SchedulerStats)
    ensures
        stats.need_resched == sched.need_resched,
        stats.total == sched.table@.len(),
        stats.ready == spec_count(sched.table@, ProcessState::Ready),
        stats.running == spec_count(sched.table@, ProcessState::Running),
        stats.blocked == spec_count(sched.table@, ProcessState::Blocked),
        stats.zombie == spec_count(sched.table@, ProcessState::Zombie),
        stats.total_slices == spec_total_slices(sched.table@),
{
    let mut stats = SchedulerStats::empty();
    stats.need_resched = sched.need_resched;
    let len = sched.table.entries.len();
    let mut i: usize = 0;
    while i < len
        invariant
            i <= len,
            len == sched.table@.len(),
            stats.need_resched == sched.need_resched,
            stats.total == i,
            stats.ready == spec_count(sched.table@.subrange(0, i as int), ProcessState::Ready),
            stats.running == spec_count(sched.table@.subrange(0, i as int), ProcessState::Running),
            stats.blocked == spec_count(sched.table@.subrange(0, i as int), ProcessState::Blocked),
            stats.zombie == spec_count(sched.table@.subrange(0, i as int), ProcessState::Zombie),
            stats.total_slices == spec_total_slices(sched.table@.subrange(0, i as int)),
        decreases len - i,
    {
        proof {
            assert(sched.table@.subrange(0, i + 1).drop_last() =~= sched.table@.subrange(
                0,
                i as int,
            ));
            lemma_count_bounded(sched.table@.subrange(0, i as int), ProcessState::Ready);
            lemma_count_bounded(sched.table@.subrange(0, i as int), ProcessState::Running);
            lemma_count_bounded(sched.table@.subrange(0, i as int), ProcessState::Blocked);
            lemma_count_bounded(sched.table@.subrange(0, i as int), ProcessState::Zombie);
        }
        let process = &sched.table.entries[i];
        stats.total += 1;
        stats.total_slices = stats.total_slices.saturating_add(process.cpu_slices);
        match process.state {
            ProcessState::Ready => {
                stats.ready += 1;
            },
            ProcessState::Running => {
                stats.running += 1;
            },
            ProcessState::Blocked => {
                stats.blocked += 1;
            },
            ProcessState::Zombie => {
                stats.zombie += 1;
            },
        }
        i += 1;
    }
    assert(sched.table@.subrange(0, len as int) =~= sched.table@);
    stats
}

/// The credentials of the current process.
pub fn current_credentials(sched: &Scheduler) -> (credentials: Option<Credentials>)
    ensures
        credentials == (if sched.current_pid != 0 && spec_index_of(
            sched.table@,
            sched.current_pid,
        ) < sched.table@.len() {
            Some(sched.table@[spec_index_of(sched.table@, sched.current_pid)].credentials)
        } else {
            None
        }),
{
    let pid = match current_pid(sched) {
        Some(pid) => pid,
        None => { return None; },
    };
    match sched.table.get(pid) {
        Some(process) => Some(process.credentials()),
        None => None,
    }
}

/// The address space of the current process.
pub fn current_address_space(sched: &Scheduler) -> (space: Option<AddressSpace>)
    ensures
        space == (if sched.current_pid != 0 && spec_index_of(sched.table@, sched.current_pid)
            < sched.table@.len() {
            Some(sched.table@[spec_index_of(sched.table@, sched.current_pid)].address_space)
        } else {
            None
        }),
{
    let pid = match current_pid(sched) {
        Some(pid) => pid,
        None => { return None; },
    };
    match sched.table.get(pid) {
        Some(process) => Some(process.address_space()),
        None => None,
    }
}

/// Takes a block of the heap for the process `pid`, to read and write.
pub fn allocate_for_process(
    sched: &mut Scheduler,
    heap: &mut KernelAllocator,
    pid: Pid,
    layout: Layout,
    kind: MemoryRegionKind,
) -> (res: Result<u64, ProcessError>)
    requires
        old(sched).wf(),
        old(heap).wf(),
    ensures
        final(sched).wf(),
        final(heap).wf(),
        final(heap).start == old(heap).start,
        final(heap).size == old(heap).size,
        spec_allocate_for(
            *old(sched),
            *final(sched),
            old(heap).list@,
            final(heap).list@,
            pid,
            OwnedRegion { base: 0, layout, kind, permissions: MemoryPermissions::spec_read_write() },
            res,
        ),
{
    allocate_for_process_with_permissions(
        sched,
        heap,
        pid,
        layout,
        kind,
        MemoryPermissions::read_write(),
    )
}

/// What taking a block for the process `pid` does. `wanted` gives the
/// layout, kind and permissions of the block. A pid that names no process
/// fails; so does a heap that has no such block. Otherwise the block is
/// recorded as a region of the process; where it cannot be recorded it is lost.
pub open spec fn spec_allocate_for(
    before: Scheduler,
    after: Scheduler,
    list_before: Seq<crate::mem::heap::ListNode>,
    list_after: Seq<crate::mem::heap::ListNode>,
    pid: Pid,
    wanted: OwnedRegion,
    res: Result<u64, ProcessError>,
) -> bool {
    let entries = before.table@;
    let index = spec_index_of(entries, pid);
    if index >= entries.len() {
        res == Err::<u64, ProcessError>(ProcessError::ProcessNotFound) && after == before
            && list_after == list_before
    } else {
        let process = entries[index];
        &&& after == (Scheduler {
            table: ProcessTable { entries: after.table.entries, ..before.table },
            ..before
        })
        &&& after.table@.len() == entries.len()
        &&& forall|i: int| 0 <= i < entries.len() && i != index ==> after.table@[i] == entries[i]
        &&& after.table@[index] == (Process { regions: after.table@[index].regions, ..process })
        &&& match first_fit(
            list_before,
            0,
            effective_size(wanted.layout.size),
            effective_align(wanted.layout.align),
        ) {
            None => res == Err::<u64, ProcessError>(ProcessError::AllocationFailed) && list_after
                == list_before && after.table@[index].regions == process.regions,
            Some((slot, ptr)) => {
                let (regions, backing, list, registered) = spec_register(
                    process.regions@,
                    process.regions.backing,
                    spec_carve(list_before, slot, ptr, effective_size(wanted.layout.size)),
                    OwnedRegion { base: ptr, ..wanted },
                );
                &&& list_after == list
                &&& after.table@[index].regions@ == regions
                &&& after.table@[index].regions.backing == backing
                &&& res == (match registered {
                    Ok(()) => Ok::<u64, ProcessError>(ptr),
                    Err(e) => Err::<u64, ProcessError>(e),
                })
            },
        }
    }
}

/// Takes a block of the heap for the process `pid`.
pub fn allocate_for_process_with_permissions(
    sched: &mut Scheduler,
    heap: &mut KernelAllocator,
    pid: Pid,
    layout: Layout,
    kind: MemoryRegionKind,
    permissions: MemoryPermissions,
) -> (res: Result<u64, ProcessError>)
    requires
        old(sched).wf(),
        old(heap).wf(),
    ensures
        final(sched).wf(),
        final(heap).wf(),
        final(heap).start == old(heap).start,
        final(heap).size == old(heap).size,
        spec_allocate_for(
            *old(sched),
            *final(sched),
            old(heap).list@,
            final(heap).list@,
            pid,
            OwnedRegion { base: 0, layout, kind, permissions },
            res,
        ),
{
    let index = match sched.table.find_index_by_pid(pid) {
        Some(index) => index,
        None => { return Err(ProcessError::ProcessNotFound); },
    };
    assert(sched.table@[index as int].wf());
    let res = sched.table.entries[index].allocate_region_with_permissions(
        heap,
        layout,
        kind,
        permissions,
    );
    proof {
        let entries = old(sched).table@;
        assert(entries[index as int].wf());
        lemma_one_changed_wf(*old(sched), *sched, index as int);
    }
    res
}

/// Gives the block at `ptr` of the process `pid` back to the heap.
pub fn free_for_process(sched: &mut Scheduler, heap: &mut KernelAllocator, pid: Pid, ptr: u64) -> (res:
    Result<(), ProcessError>)
    requires
        old(sched).wf(),
        old(heap).wf(),
    ensures
        final(sched).wf(),
        final(heap).wf(),
        final(heap).start == old(heap).start,
        final(heap).size == old(heap).size,
        ({
            let entries = old(sched).table@;
            let index = spec_index_of(entries, pid);
            if index >= entries.len() {
                res == Err::<(), ProcessError>(ProcessError::ProcessNotFound) && *final(sched) == *old(sched) && final(heap).list@ == old(heap).list@
            } else {
                let process = entries[index];
                let position = spec_position(process.regions@, ptr);
                &&& *final(sched) == (Scheduler {
                    table: ProcessTable { entries: final(sched).table.entries, ..old(sched).table },
                    ..*old(sched)
                })
                &&& final(sched).table@.len() == entries.len()
                &&& forall|i: int|
                    0 <= i < entries.len() && i != index ==> final(sched).table@[i] == entries[i]
                &&& final(sched).table@[index] == (Process {
                    regions: final(sched).table@[index].regions,
                    ..process
                })
                &&& final(sched).table@[index].regions.backing == process.regions.backing
                &&& if position < process.regions@.len() {
                    let region = process.regions@[position];
                    &&& res is Ok
                    &&& final(sched).table@[index].regions@ == spec_swap_remove(
                        process.regions@,
                        position,
                    )
                    &&& final(heap).list@ == (if region.base != 0 {
                        spec_free(old(heap).list@, region.base, region.layout.size)
                    } else {
                        old(heap).list@
                    })
                } else {
                    &&& res == Err::<(), ProcessError>(ProcessError::MemoryRegionNotFound)
                    &&& final(sched).table@[index].regions@ == process.regions@
                    &&& final(heap).list@ == old(heap).list@
                }
            }
        }),
{
    let index = match sched.table.find_index_by_pid(pid) {
        Some(index) => index,
        None => { return Err(ProcessError::ProcessNotFound); },
    };
    assert(sched.table@[index as int].wf());
    let res = sched.table.entries[index].release_region(heap, ptr);
    proof {
        let entries = old(sched).table@;
        assert(entries[index as int].wf());
        lemma_one_changed_wf(*old(sched), *sched, index as int);
    }
    res
}

} // verus!
