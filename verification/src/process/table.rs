//! The process table: every process of the system, found by its pid.

use vstd::prelude::*;
use crate::mem::backing::{spec_grow, Backing, Growth};
use crate::mem::heap::{
    can_insert, effective_size, first_fit, spec_carve, spec_free, spec_insert_region, KernelAllocator,
    ListNode,
};
use crate::process::pcb::{
    spec_release_parts, spec_release_process, spec_return_slot, stack_layout, stack_region,
    KernelEnv, Process, KERNEL_STACK_ALIGN,
};
use crate::process::regions::{spec_register, spec_swap_remove};
use crate::process::types::{
    AddressSpace, Context, Pid, ProcessError, ProcessState, KERNEL_STACK_SIZE,
};
use crate::user::Credentials;

verus! {

/// Bytes that one process takes in the table's block of the heap.
pub const PROCESS_BYTES: u64 = 784;

/// The processes, in a block of the kernel heap that grows with them.
pub struct ProcessTable {
    pub entries: Vec<Process>,
    pub backing: Backing,
    pub next_pid: Pid,
    pub init_pid: Option<Pid>,
    pub idle_pid: Option<Pid>,
    pub initialized: bool,
}

impl View for ProcessTable {
    type V = Seq<Process>;

    open spec fn view(&self) -> Seq<Process> {
        self.entries@
    }
}

/// No two processes have the same pid.
pub open spec fn pids_unique(entries: Seq<Process>) -> bool {
    forall|i: int, j: int|
        0 <= i < j < entries.len() ==> (#[trigger] entries[i]).pid != (#[trigger] entries[j]).pid
}

/// A process that may be given the processor in its turn.
pub open spec fn ready_candidate(process: Process) -> bool {
    process.state == ProcessState::Ready && !process.is_idle
}

/// The idle task, where it may be given the processor.
pub open spec fn idle_candidate(process: Process) -> bool {
    process.is_idle && (process.state == ProcessState::Ready || process.state
        == ProcessState::Running)
}

/// Where the search for the next process begins: at the slot after `start`,
/// going round, or at the first slot.
pub open spec fn scan_start(start: Option<usize>, len: int) -> int {
    match start {
        Some(i) => if i + 1 >= len { 0 } else { i + 1 },
        None => 0,
    }
}

/// The slot that the search looks at in its step `k`, going round.
pub open spec fn scan_index(first: int, k: int, len: int) -> int {
    if first + k < len {
        first + k
    } else {
        first + k - len
    }
}

/// The first slot, from step `k` of the search on, that holds a candidate:
/// the idle task if `idle` is set, any other ready process if not.
pub open spec fn first_in_scan(entries: Seq<Process>, first: int, k: int, idle: bool) -> Option<usize>
    decreases entries.len() - k,
{
    if k < 0 || k >= entries.len() {
        None
    } else {
        let index = scan_index(first, k, entries.len() as int);
        let process = entries[index];
        if (idle && idle_candidate(process)) || (!idle && ready_candidate(process)) {
            Some(index as usize)
        } else {
            first_in_scan(entries, first, k + 1, idle)
        }
    }
}

/// The slot of the process that runs next: the first ready process after
/// `start`, going round, that is not the idle task; the idle task where no
/// other process is ready; nothing where not even the idle task can run.
pub open spec fn spec_next_ready_index(entries: Seq<Process>, start: Option<usize>) -> Option<usize> {
    if entries.len() == 0 {
        None
    } else {
        let first = scan_start(start, entries.len() as int);
        match first_in_scan(entries, first, 0, false) {
            Some(index) => Some(index),
            None => first_in_scan(entries, first, 0, true),
        }
    }
}

/// The index of the first process with the given pid, or the number of
/// processes where there is none.
pub open spec fn spec_index_of(entries: Seq<Process>, pid: Pid) -> int
    decreases entries.len(),
{
    if entries.len() == 0 || entries[0].pid == pid {
        0
    } else {
        1 + spec_index_of(entries.drop_first(), pid)
    }
}

/// A process is a child that `parent` may wait for: its child, and the one
/// named by `target` where one is named.
pub open spec fn is_child(process: Process, parent: Pid, target: Option<Pid>) -> bool {
    process.parent == Some(parent) && (target matches Some(pid) ==> process.pid == pid)
}

/// The index of the first child of `parent` that has exited and may be
/// reaped, or the number of processes where there is none.
pub open spec fn spec_zombie_index(entries: Seq<Process>, parent: Pid, target: Option<Pid>) -> int
    decreases entries.len(),
{
    if entries.len() == 0 || (is_child(entries[0], parent, target) && entries[0].state
        == ProcessState::Zombie) {
        0
    } else {
        1 + spec_zombie_index(entries.drop_first(), parent, target)
    }
}

/// The credentials that a child of `parent` starts with: those of its
/// parent, or the superuser's where it has none or the parent is gone.
pub open spec fn spec_inherited_credentials(entries: Seq<Process>, parent: Option<Pid>) -> Credentials {
    match parent {
        Some(pid) => if spec_index_of(entries, pid) < entries.len() {
            entries[spec_index_of(entries, pid)].credentials
        } else {
            Credentials::spec_root()
        },
        None => Credentials::spec_root(),
    }
}

impl ProcessTable {
    /// The processes fit the table's block; each is well formed and has a
    /// pid of its own, handed out earlier; and the idle task, if there is
    /// one, is the process that the table names.
    pub open spec fn wf(&self) -> bool {
        &&& self.entries@.len() <= self.backing.capacity
        &&& self.backing.wf(PROCESS_BYTES)
        &&& self.next_pid >= 1
        &&& forall|i: int| 0 <= i < self.entries@.len() ==> (#[trigger] self.entries@[i]).wf()
        &&& forall|i: int|
            0 <= i < self.entries@.len() ==> 1 <= (#[trigger] self.entries@[i]).pid < self.next_pid
        &&& pids_unique(self.entries@)
        &&& self.idle_pid matches Some(pid) ==> pid < self.next_pid
        &&& forall|i: int|
            0 <= i < self.entries@.len() ==> ((#[trigger] self.entries@[i]).is_idle
                <==> self.idle_pid == Some(self.entries@[i].pid))
    }

    /// An empty table, before the first process.
    pub fn new() -> (table: ProcessTable)
        ensures
            table.wf(),
            table@.len() == 0,
            table.next_pid == 1,
            table.init_pid is None,
            table.idle_pid is None,
            !table.initialized,
            table.backing == (Backing { addr: 0, capacity: 0 }),
    {
        ProcessTable {
            entries: Vec::new(),
            backing: Backing::new(),
            next_pid: 1,
            init_pid: None,
            idle_pid: None,
            initialized: false,
        }
    }

    /// Hands out the next pid. Pids count up from 1 and are never reused; the
    /// call fails once they are used up.
    pub fn allocate_pid(&mut self) -> (res: Result<Pid, ProcessError>)
        ensures
            old(self).next_pid == u32::MAX ==> res == Err::<Pid, ProcessError>(
                ProcessError::TooManyProcesses,
            ) && *final(self) == *old(self),
            old(self).next_pid < u32::MAX ==> res == Ok::<Pid, ProcessError>(old(self).next_pid)
                && *final(self) == (ProcessTable {
                next_pid: (old(self).next_pid + 1) as u32,
                ..*old(self)
            }),
    {
        let pid = self.next_pid;
        self.next_pid = match self.next_pid.checked_add(1) {
            Some(next) => next,
            None => { return Err(ProcessError::TooManyProcesses); },
        };
        Ok(pid)
    }

    /// Appends a process. Where the table cannot make room the process ends:
    /// what it owns goes back to the heap.
    pub fn push(&mut self, heap: &mut KernelAllocator, process: Process) -> (res: Result<
        (),
        ProcessError,
    >)
        requires
            old(self).wf(),
            old(heap).wf(),
            process.wf(),
            1 <= process.pid < old(self).next_pid,
            forall|i: int| 0 <= i < old(self)@.len() ==> (#[trigger] old(self)@[i]).pid != process.pid,
            process.is_idle <==> old(self).idle_pid == Some(process.pid),
        ensures
            final(self).wf(),
            final(heap).wf(),
            final(heap).start == old(heap).start,
            final(heap).size == old(heap).size,
            *final(self) == (ProcessTable {
                entries: final(self).entries,
                backing: final(self).backing,
                ..*old(self)
            }),
            old(self)@.len() + 1 > usize::MAX ==> res == Err::<(), ProcessError>(
                ProcessError::TooManyProcesses,
            ) && final(self)@ == old(self)@ && final(self).backing == old(self).backing && final(heap).list@ == spec_release_process(old(heap).list@, process),
            old(self)@.len() + 1 <= usize::MAX ==> ({
                let (list, backing, growth) = spec_grow(
                    old(heap).list@,
                    old(self).backing,
                    (old(self)@.len() + 1) as usize,
                    PROCESS_BYTES,
                );
                &&& final(self).backing == backing
                &&& res == spec_growth_result(growth)
                &&& res is Ok ==> final(self)@ == old(self)@.push(process) && final(heap).list@ == list
                &&& res is Err ==> final(self)@ == old(self)@ && final(heap).list@
                    == spec_release_process(list, process)
            }),
    {
        match self.ensure_capacity(heap, 1) {
            Ok(()) => {},
            Err(e) => {
                process.release(heap);
                return Err(e);
            },
        }
        self.entries.push(process);
        proof {
            assert forall|i: int, j: int| 0 <= i < j < self.entries@.len() implies (
            #[trigger] self.entries@[i]).pid != (#[trigger] self.entries@[j]).pid by {
                if j < old(self)@.len() {
                    assert(self.entries@[i] == old(self)@[i] && self.entries@[j] == old(self)@[j]);
                } else {
                    assert(self.entries@[i] == old(self)@[i]);
                }
            }
        }
        Ok(())
    }

    /// Takes the process at `index` out of the table; the last process takes
    /// its place. The table forgets it as idle or init task.
    pub fn remove_index(&mut self, index: usize) -> (removed: Process)
        requires
            old(self).wf(),
            index < old(self)@.len(),
        ensures
            final(self).wf(),
            removed == old(self)@[index as int],
            final(self)@ == spec_swap_remove(old(self)@, index as int),
            final(self).backing == old(self).backing,
            final(self).next_pid == old(self).next_pid,
            final(self).initialized == old(self).initialized,
            final(self).idle_pid == (if old(self).idle_pid == Some(removed.pid) {
                None
            } else {
                old(self).idle_pid
            }),
            final(self).init_pid == (if old(self).init_pid == Some(removed.pid) {
                None
            } else {
                old(self).init_pid
            }),
    {
        let removed = self.entries.swap_remove(index);
        assert(self.entries@ =~= spec_swap_remove(old(self)@, index as int));
        if Some(removed.pid) == self.idle_pid {
            self.idle_pid = None;
        }
        if Some(removed.pid) == self.init_pid {
            self.init_pid = None;
        }
        proof {
            lemma_swap_remove_entries(old(self)@, index as int);
            assert forall|i: int| 0 <= i < self.entries@.len() implies ((
            #[trigger] self.entries@[i]).is_idle <==> self.idle_pid == Some(self.entries@[i].pid)) by {
                let k = if i == index { old(self)@.len() - 1 } else { i };
                assert(self.entries@[i] == old(self)@[k]);
                assert(old(self)@[k].pid != old(self)@[index as int].pid) by {
                    if k < index {
                        assert(old(self)@[k].pid != old(self)@[index as int].pid);
                    } else {
                        assert(old(self)@[index as int].pid != old(self)@[k].pid);
                    }
                }
            }
        }
        removed
    }

    /// Makes room for `additional` more processes.
    pub fn ensure_capacity(&mut self, heap: &mut KernelAllocator, additional: usize) -> (res: Result<
        (),
        ProcessError,
    >)
        requires
            old(self).wf(),
            old(heap).wf(),
        ensures
            final(self).wf(),
            final(heap).wf(),
            final(heap).start == old(heap).start,
            final(heap).size == old(heap).size,
            *final(self) == (ProcessTable { backing: final(self).backing, ..*old(self) }),
            old(self)@.len() + additional > usize::MAX ==> res == Err::<(), ProcessError>(
                ProcessError::TooManyProcesses,
            ) && final(self).backing == old(self).backing && final(heap).list@ == old(heap).list@,
            old(self)@.len() + additional <= usize::MAX ==> ({
                let (list, backing, growth) = spec_grow(
                    old(heap).list@,
                    old(self).backing,
                    (old(self)@.len() + additional) as usize,
                    PROCESS_BYTES,
                );
                &&& final(heap).list@ == list
                &&& final(self).backing == backing
                &&& res == spec_growth_result(growth)
            }),
            res is Ok ==> final(self)@.len() + additional <= final(self).backing.capacity,
    {
        let required = match self.entries.len().checked_add(additional) {
            Some(r) => r,
            None => { return Err(ProcessError::TooManyProcesses); },
        };
        match self.backing.grow(heap, required, PROCESS_BYTES) {
            Growth::Enough | Growth::Grown => Ok(()),
            Growth::CapacityOverflow => Err(ProcessError::TooManyProcesses),
            _ => Err(ProcessError::AllocationFailed),
        }
    }

    /// The processes, in the order of the table.
    pub fn slice(&self) -> (entries: &Vec<Process>)
        ensures
            entries@ == self@,
    {
        &self.entries
    }

    /// Finds the slot of the process with the given pid.
    pub fn find_index_by_pid(&self, pid: Pid) -> (found: Option<usize>)
        ensures
            found matches Some(index) ==> index == spec_index_of(self@, pid) && index < self@.len()
                && self@[index as int].pid == pid,
            found is None ==> spec_index_of(self@, pid) >= self@.len() && forall|i: int|
                0 <= i < self@.len() ==> (#[trigger] self@[i]).pid != pid,
    {
        let mut index: usize = 0;
        assert(self@.subrange(0, self@.len() as int) =~= self@);
        while index < self.entries.len()
            invariant
                index <= self@.len(),
                spec_index_of(self@, pid) == index + spec_index_of(
                    self@.subrange(index as int, self@.len() as int),
                    pid,
                ),
                forall|i: int| 0 <= i < index ==> (#[trigger] self@[i]).pid != pid,
            decreases self@.len() - index,
        {
            if self.entries[index].pid == pid {
                return Some(index);
            }
            assert(self@.subrange(index as int, self@.len() as int).drop_first() =~= self@.subrange(
                index + 1,
                self@.len() as int,
            ));
            index += 1;
        }
        None
    }

    /// Tells whether `parent` has a child to wait for.
    pub fn has_child(&self, parent: Pid, target: Option<Pid>) -> (yes: bool)
        ensures
            yes <==> exists|i: int| 0 <= i < self@.len() && is_child(#[trigger] self@[i], parent, target),
    {
        let mut index: usize = 0;
        while index < self.entries.len()
            invariant
                index <= self@.len(),
                forall|i: int| 0 <= i < index ==> !is_child(#[trigger] self@[i], parent, target),
            decreases self@.len() - index,
        {
            let process = &self.entries[index];
            let by_parent = match process.parent {
                Some(p) => p == parent,
                None => false,
            };
            let by_target = match target {
                Some(pid) => process.pid == pid,
                None => true,
            };
            if by_parent && by_target {
                assert(is_child(self@[index as int], parent, target));
                return true;
            }
            index += 1;
        }
        false
    }

    /// Reaps the first child of `parent` that has exited: the child leaves
    /// the table, what it owns goes back to the heap, and its pid and exit
    /// code are returned.
    pub fn take_zombie_child(&mut self, heap: &mut KernelAllocator, parent: Pid, target: Option<Pid>) -> (res:
        Option<(Pid, i32)>)
        requires
            old(self).wf(),
            old(heap).wf(),
        ensures
            final(self).wf(),
            final(heap).wf(),
            final(heap).start == old(heap).start,
            final(heap).size == old(heap).size,
            final(self).backing == old(self).backing,
            final(self).next_pid == old(self).next_pid,
            final(self).initialized == old(self).initialized,
            ({
                let index = spec_zombie_index(old(self)@, parent, target);
                if index < old(self)@.len() {
                    let child = old(self)@[index];
                    &&& res == Some(
                        (
                            child.pid,
                            match child.exit_code {
                                Some(code) => code,
                                None => 0i32,
                            },
                        ),
                    )
                    &&& final(self)@ == spec_swap_remove(old(self)@, index)
                    &&& final(heap).list@ == spec_release_process(old(heap).list@, child)
                    &&& final(self).idle_pid == (if old(self).idle_pid == Some(child.pid) {
                        None
                    } else {
                        old(self).idle_pid
                    })
                    &&& final(self).init_pid == (if old(self).init_pid == Some(child.pid) {
                        None
                    } else {
                        old(self).init_pid
                    })
                } else {
                    &&& res is None
                    &&& *final(self) == *old(self)
                    &&& final(heap).list@ == old(heap).list@
                }
            }),
    {
        let mut index: usize = 0;
        assert(self@.subrange(0, self@.len() as int) =~= self@);
        while index < self.entries.len()
            invariant
                *self == *old(self),
                *heap == *old(heap),
                self.wf(),
                heap.wf(),
                index <= self@.len(),
                spec_zombie_index(self@, parent, target) == index + spec_zombie_index(
                    self@.subrange(index as int, self@.len() as int),
                    parent,
                    target,
                ),
            decreases self@.len() - index,
        {
            let process = &self.entries[index];
            let by_parent = match process.parent {
                Some(p) => p == parent,
                None => false,
            };
            let by_target = match target {
                Some(pid) => process.pid == pid,
                None => true,
            };
            let zombie = match process.state {
                ProcessState::Zombie => true,
                _ => false,
            };
            if by_parent && by_target && zombie {
                let pid = process.pid;
                let code = match process.exit_code {
                    Some(code) => code,
                    None => 0,
                };
                let removed = self.remove_index(index);
                removed.release(heap);
                return Some((pid, code));
            }
            assert(self@.subrange(index as int, self@.len() as int).drop_first() =~= self@.subrange(
                index + 1,
                self@.len() as int,
            ));
            index += 1;
        }
        None
    }

    /// Picks the process that runs next, round robin from the slot after `start`.
    pub fn next_ready_index(&self, start: Option<usize>) -> (next: Option<usize>)
        requires
            start matches Some(index) ==> index < self@.len(),
        ensures
            next == spec_next_ready_index(self@, start),
            next matches Some(index) ==> index < self@.len(),
    {
        let len = self.entries.len();
        if len == 0 {
            return None;
        }
        let first: usize = match start {
            Some(i) => if i + 1 >= len { 0 } else { i + 1 },
            None => 0,
        };
        let mut index = first;
        let mut inspected: usize = 0;
        let mut idle_found: Option<usize> = None;
        while inspected < len
            invariant
                len == self@.len(),
                first < len,
                first == scan_start(start, len as int),
                inspected <= len,
                index < len,
                inspected < len ==> index == scan_index(first as int, inspected as int, len as int),
                first_in_scan(self@, first as int, inspected as int, false) == first_in_scan(
                    self@,
                    first as int,
                    0,
                    false,
                ),
                match idle_found {
                    Some(i) => first_in_scan(self@, first as int, 0, true) == Some(i) && i < len,
                    None => first_in_scan(self@, first as int, 0, true) == first_in_scan(
                        self@,
                        first as int,
                        inspected as int,
                        true,
                    ),
                },
            decreases len - inspected,
        {
            let process = &self.entries[index];
            match process.state {
                ProcessState::Ready => {
                    if process.is_idle {
                        if idle_found.is_none() {
                            idle_found = Some(index);
                        }
                    } else {
                        assert(first_in_scan(self@, first as int, inspected as int, false) == Some(
                            index,
                        ));
                        return Some(index);
                    }
                },
                ProcessState::Running => {
                    if process.is_idle && idle_found.is_none() {
                        idle_found = Some(index);
                    }
                },
                _ => {},
            }
            index = if index + 1 >= len { 0 } else { index + 1 };
            inspected += 1;
        }
        idle_found
    }

    /// Makes a kernel task and enters it in the table.
    ///
    /// The task inherits the credentials of its parent. The first task that
    /// is not the idle task becomes the init task.
    pub fn spawn_kernel_process(
        &mut self,
        heap: &mut KernelAllocator,
        env: &KernelEnv,
        name: &'static str,
        parent: Option<Pid>,
        entry: u64,
        is_idle: bool,
    ) -> (res: Result<Pid, ProcessError>)
        requires
            old(self).wf(),
            old(heap).wf(),
            is_idle ==> old(self).idle_pid is None,
        ensures
            final(self).wf(),
            final(heap).wf(),
            final(heap).start == old(heap).start,
            final(heap).size == old(heap).size,
            final(self).initialized == old(self).initialized,
            ({
                let plan = spec_spawn_kernel(*old(self), old(heap).list@);
                &&& res == plan.result
                &&& final(heap).list@ == plan.list
                &&& final(self).backing == plan.table_backing
                &&& final(self).next_pid == (if old(self).next_pid == u32::MAX {
                    old(self).next_pid
                } else {
                    (old(self).next_pid + 1) as u32
                })
                &&& res is Err ==> final(self)@ == old(self)@ && final(self).idle_pid == old(self).idle_pid && final(self).init_pid == old(self).init_pid
                &&& res matches Ok(pid) ==> {
                    &&& final(self)@ == old(self)@.push(final(self)@.last())
                    &&& final(self)@.last().is_fresh(
                        pid,
                        name,
                        parent,
                        spec_inherited_credentials(old(self)@, parent),
                        is_idle,
                        plan.stack_ptr,
                        *env,
                    )
                    &&& final(self)@.last().regions.backing == plan.regions_backing
                    &&& final(self)@.last().address_space == AddressSpace::spec_kernel(env.kernel_cr3)
                    &&& final(self)@.last().context == (Context {
                        rsp: spec_return_slot(plan.stack_ptr),
                        rbp: spec_return_slot(plan.stack_ptr),
                        rip: entry,
                        ..Context::spec_new()
                    })
                    &&& final(self)@.last().user_stack is None
                    &&& final(self)@.last().user_entry is None
                    &&& final(self).idle_pid == (if is_idle { Some(pid) } else { old(self).idle_pid })
                    &&& final(self).init_pid == (if !is_idle && old(self).init_pid is None {
                        Some(pid)
                    } else {
                        old(self).init_pid
                    })
                }
            }),
    {
        proof {
            reveal(spec_spawn_plan);
        }
        let pid = match self.allocate_pid() {
            Ok(pid) => pid,
            Err(e) => { return Err(e); },
        };
        let credentials = self.inherited_credentials(parent);
        let process = match Process::new_kernel(
            pid,
            name,
            parent,
            entry,
            is_idle,
            credentials,
            heap,
            env,
        ) {
            Ok(process) => process,
            Err(e) => { return Err(e); },
        };
        if is_idle {
            self.idle_pid = Some(pid);
        }
        match self.push(heap, process) {
            Ok(()) => {},
            Err(e) => {
                if is_idle {
                    self.idle_pid = None;
                }
                return Err(e);
            },
        }
        if !is_idle && self.init_pid.is_none() {
            self.init_pid = Some(pid);
        }
        assert(self@.drop_last() =~= old(self)@);
        assert(self@ =~= old(self)@.push(self@.last()));
        Ok(pid)
    }

    /// The credentials that a child of `parent` starts with.
    pub fn inherited_credentials(&self, parent: Option<Pid>) -> (credentials: Credentials)
        ensures
            credentials == spec_inherited_credentials(self@, parent),
    {
        match parent {
            Some(parent_pid) => match self.get(parent_pid) {
                Some(process) => process.credentials,
                None => Credentials::root(),
            },
            None => Credentials::root(),
        }
    }

    /// Ends every process and gives the table's block back to the heap: the
    /// processes give back what they own, the last one first, and then the
    /// block of the table goes back.
    pub fn release(self, heap: &mut KernelAllocator)
        requires
            self.wf(),
            old(heap).wf(),
        ensures
            final(heap).wf(),
            final(heap).start == old(heap).start,
            final(heap).size == old(heap).size,
            final(heap).list@ == spec_release_table(old(heap).list@, self@, self.backing),
    {
        let mut table = self;
        while table.entries.len() > 0
            invariant
                heap.wf(),
                heap.start == old(heap).start,
                heap.size == old(heap).size,
                table.backing == self.backing,
                table.backing.wf(PROCESS_BYTES),
                forall|i: int| 0 <= i < table.entries@.len() ==> (#[trigger] table.entries@[i]).wf(),
                spec_release_entries(heap.list@, table.entries@) == spec_release_entries(
                    old(heap).list@,
                    self@,
                ),
            decreases table.entries@.len(),
        {
            let ghost before = table.entries@;
            let process = table.entries.pop().unwrap();
            assert(table.entries@ =~= before.drop_last());
            process.release(heap);
        }
        table.backing.release(heap, PROCESS_BYTES);
    }

    /// The process with the given pid.
    pub fn get(&self, pid: Pid) -> (found: Option<&Process>)
        ensures
            match found {
                Some(process) => spec_index_of(self@, pid) < self@.len() && *process
                    == self@[spec_index_of(self@, pid)] && process.pid == pid,
                None => spec_index_of(self@, pid) >= self@.len(),
            },
    {
        match self.find_index_by_pid(pid) {
            Some(index) => Some(&self.entries[index]),
            None => None,
        }
    }
}

/// The free list after the processes in `entries` gave back all that they
/// own, the last one first.
pub open spec fn spec_release_entries(list: Seq<ListNode>, entries: Seq<Process>) -> Seq<ListNode>
    decreases entries.len(),
{
    if entries.len() == 0 {
        list
    } else {
        spec_release_entries(spec_release_process(list, entries.last()), entries.drop_last())
    }
}

/// The free list after a table with the processes `entries` in the block
/// `backing` was given up: the processes give back what they own, then the
/// block goes back, unless it overlaps free memory.
pub open spec fn spec_release_table(
    list: Seq<ListNode>,
    entries: Seq<Process>,
    backing: Backing,
) -> Seq<ListNode> {
    let freed = spec_release_entries(list, entries);
    let bytes = effective_size((backing.capacity * PROCESS_BYTES) as u64);
    if backing.capacity != 0 && can_insert(freed, backing.addr, bytes) {
        spec_insert_region(freed, backing.addr, bytes)
    } else {
        freed
    }
}

/// A plan fails for want of a pid, of a stack, or of room for its records;
/// a plan that works out gives the next pid.
pub proof fn lemma_spawn_plan_result(next_pid: Pid, backing: Backing, len: nat, list: Seq<ListNode>)
    ensures
        match spec_spawn_plan(next_pid, backing, len, list).result {
            Ok(pid) => pid == next_pid && next_pid < u32::MAX,
            Err(e) => e == ProcessError::TooManyProcesses || e == ProcessError::StackAllocationFailed
                || e == ProcessError::AllocationFailed,
        },
{
    reveal(spec_spawn_plan);
}

/// What making a kernel task does to the heap and to the table's block, and
/// how it ends.
pub struct SpawnPlan {
    /// The heap's free list afterwards.
    pub list: Seq<ListNode>,
    /// The table's block afterwards.
    pub table_backing: Backing,
    /// The block of the new task's region list.
    pub regions_backing: Backing,
    /// The new task's kernel stack.
    pub stack_ptr: u64,
    pub result: Result<Pid, ProcessError>,
}

/// The plan of making a kernel task. A pid is taken first: none is left
/// after `u32::MAX - 1`. Then the stack is taken from the heap and recorded
/// as the task's first region, and room is made in the table. A task that
/// finds no room in the table gives back what it took.
#[verifier::opaque]
pub open spec fn spec_spawn_plan(next_pid: Pid, backing: Backing, len: nat, list: Seq<ListNode>) -> SpawnPlan {
    let none = Backing { addr: 0, capacity: 0 };
    if next_pid == u32::MAX {
        SpawnPlan {
            list,
            table_backing: backing,
            regions_backing: none,
            stack_ptr: 0,
            result: Err(ProcessError::TooManyProcesses),
        }
    } else {
        match first_fit(list, 0, KERNEL_STACK_SIZE, KERNEL_STACK_ALIGN) {
            None => SpawnPlan {
                list,
                table_backing: backing,
                regions_backing: none,
                stack_ptr: 0,
                result: Err(ProcessError::StackAllocationFailed),
            },
            Some((index, stack_ptr)) => {
                let (regions, regions_backing, list1, registered) = spec_register(
                    Seq::empty(),
                    none,
                    spec_carve(list, index, stack_ptr, KERNEL_STACK_SIZE),
                    stack_region(stack_ptr),
                );
                if registered is Err {
                    SpawnPlan {
                        list: list1,
                        table_backing: backing,
                        regions_backing,
                        stack_ptr,
                        result: Err(ProcessError::AllocationFailed),
                    }
                } else if len + 1 > usize::MAX {
                    SpawnPlan {
                        list: spec_release_parts(
                            list1,
                            regions,
                            regions_backing,
                            stack_ptr,
                            Some(stack_layout()),
                        ),
                        table_backing: backing,
                        regions_backing,
                        stack_ptr,
                        result: Err(ProcessError::TooManyProcesses),
                    }
                } else {
                    let (list2, table_backing, growth) = spec_grow(
                        list1,
                        backing,
                        (len + 1) as usize,
                        PROCESS_BYTES,
                    );
                    match spec_growth_result(growth) {
                        Ok(()) => SpawnPlan {
                            list: list2,
                            table_backing,
                            regions_backing,
                            stack_ptr,
                            result: Ok(next_pid),
                        },
                        Err(e) => SpawnPlan {
                            list: spec_release_parts(
                                list2,
                                regions,
                                regions_backing,
                                stack_ptr,
                                Some(stack_layout()),
                            ),
                            table_backing,
                            regions_backing,
                            stack_ptr,
                            result: Err(e),
                        },
                    }
                }
            },
        }
    }
}

/// The plan of making a kernel task in the table `table`.
pub open spec fn spec_spawn_kernel(table: ProcessTable, list: Seq<ListNode>) -> SpawnPlan {
    spec_spawn_plan(table.next_pid, table.backing, table@.len(), list)
}

/// What an attempt to make room in the table returns.
pub open spec fn spec_growth_result(growth: Growth) -> Result<(), ProcessError> {
    match growth {
        Growth::Enough | Growth::Grown => Ok(()),
        Growth::CapacityOverflow => Err(ProcessError::TooManyProcesses),
        _ => Err(ProcessError::AllocationFailed),
    }
}

/// After a process left the table, each of the others is still there, once.
pub proof fn lemma_swap_remove_entries(entries: Seq<Process>, index: int)
    requires
        0 <= index < entries.len(),
        pids_unique(entries),
    ensures
        pids_unique(spec_swap_remove(entries, index)),
        spec_swap_remove(entries, index).len() == entries.len() - 1,
        forall|i: int|
            0 <= i < entries.len() - 1 ==> #[trigger] spec_swap_remove(entries, index)[i] == entries[if i
                == index {
                entries.len() - 1
            } else {
                i
            }],
{
    let after = spec_swap_remove(entries, index);
    assert forall|i: int, j: int| 0 <= i < j < after.len() implies (#[trigger] after[i]).pid != (
    #[trigger] after[j]).pid by {
        let a = if i == index { entries.len() - 1 } else { i };
        let b = if j == index { entries.len() - 1 } else { j };
        assert(after[i] == entries[a] && after[j] == entries[b]);
        if a < b {
            assert(entries[a].pid != entries[b].pid);
        } else {
            assert(entries[b].pid != entries[a].pid);
        }
    }
}

} // verus!
