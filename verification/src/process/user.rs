//! Making user processes.

use vstd::prelude::*;
use vstd::string::StringSliceAdditionalSpecFns;
use crate::arch::paging::{paging_state, DirectMap, PagingState};
use crate::drivers::BlockDevice;
use crate::fs::fat::FatVolume;
use crate::mem::backing::{spec_grow, Backing, Growth};
use crate::mem::heap::{allocate, first_fit, spec_carve, KernelAllocator, Layout, ListNode};
use crate::mem::phys::{MemoryRegion, PhysicalMemory};
use crate::process::api::lemma_spawn_keeps_running;
use crate::process::pcb::{
    kernel_stack_slot, spec_release_parts, spec_return_slot, stack_layout, stack_region, KernelEnv,
    Process, KERNEL_STACK_ALIGN,
};
use crate::process::regions::{spec_register, MemoryRegionList, OwnedRegion};
use crate::process::sched::{current_pid, Scheduler};
use crate::process::space::{
    create_default_user_address_space, map_user_segments, spec_create_user_space,
    spec_load_segments,
};
use crate::process::table::{
    spec_growth_result, spec_inherited_credentials, ProcessTable, PROCESS_BYTES,
};
use crate::process::types::{
    AddressSpace, AddressSpaceKind, Context, MemoryPermissions, MemoryRegionKind, Pid, ProcessError,
    ProcessState, UserStack, KERNEL_STACK_SIZE, MAX_FDS,
};
use crate::user::fs::FileError;
use crate::user::loader::{load_elf, spec_load_elf, LoaderError};
use crate::user::{Credentials, DEFAULT_STACK_PAGES};

verus! {

/// What making a user process needs of the machine besides the heap: the
/// frames, the memory behind the direct map, and the volume with its disk.
pub struct UserParts {
    pub entry: u64,
    pub space: AddressSpace,
    pub user_stack: UserStack,
    pub stack_ptr: u64,
    pub regions_backing: Backing,
}

/// What making a user process does to memory, to the frame allocator and to
/// the heap, and what the process is made of.
pub struct UserPlan {
    pub paging: PagingState,
    pub list: Seq<ListNode>,
    pub result: Result<UserParts, ProcessError>,
}

/// What a failure of the loader means for the process: a program that is
/// not there is a path not found; one that cannot be read is an I/O
/// failure; one that cannot be parsed is not a valid image.
pub open spec fn spec_map_loader_error(err: LoaderError) -> ProcessError {
    match err {
        LoaderError::File(FileError::NotFound) => ProcessError::PathNotFound,
        LoaderError::File(_) => ProcessError::UserImageIo,
        LoaderError::Elf(_) => ProcessError::InvalidElf,
    }
}

/// The plan of making a user process from the program at `path`: the
/// program is loaded; an address space with a stack is made; the program's
/// segments are mapped and filled; a kernel stack is taken from the heap and
/// recorded as the first region of the process. The first step that fails
/// ends the plan; what was done before stays done.
pub open spec fn spec_new_user(
    paging: PagingState,
    map: Seq<MemoryRegion>,
    limit: u64,
    list: Seq<ListNode>,
    kernel_cr3: u64,
    volume: Option<FatVolume>,
    storage: Seq<u8>,
    block_size: usize,
    path: Seq<u8>,
) -> UserPlan {
    match spec_load_elf(volume, storage, block_size, path) {
        Err(e) => UserPlan { paging, list, result: Err(spec_map_loader_error(e)) },
        Ok((entry, segments, data)) => {
            let (made, created) = spec_create_user_space(
                paging,
                map,
                limit,
                kernel_cr3,
                DEFAULT_STACK_PAGES,
            );
            match created {
                Err(e) => UserPlan { paging: made, list, result: Err(e) },
                Ok((space, user_stack)) => {
                    let (loaded, mapped) = spec_load_segments(
                        made,
                        map,
                        limit,
                        space.cr3,
                        segments,
                        0,
                        data,
                    );
                    match mapped {
                        Err(e) => UserPlan { paging: loaded, list, result: Err(e) },
                        Ok(()) => match first_fit(list, 0, KERNEL_STACK_SIZE, KERNEL_STACK_ALIGN) {
                            None => UserPlan {
                                paging: loaded,
                                list,
                                result: Err(ProcessError::StackAllocationFailed),
                            },
                            Some((index, stack_ptr)) => {
                                let (regions, regions_backing, list1, registered) = spec_register(
                                    Seq::empty(),
                                    Backing { addr: 0, capacity: 0 },
                                    spec_carve(list, index, stack_ptr, KERNEL_STACK_SIZE),
                                    stack_region(stack_ptr),
                                );
                                UserPlan {
                                    paging: loaded,
                                    list: list1,
                                    result: match registered {
                                        Err(e) => Err(e),
                                        Ok(()) => Ok(
                                            UserParts {
                                                entry,
                                                space,
                                                user_stack,
                                                stack_ptr,
                                                regions_backing,
                                            },
                                        ),
                                    },
                                }
                            },
                        },
                    }
                },
            }
        },
    }
}

/// The registers that a user process starts with in the kernel: on the
/// user-mode trampoline, with the program's entry and the top of the user
/// stack in the registers that the trampoline reads.
pub open spec fn spec_user_context(parts: UserParts, env: KernelEnv) -> Context {
    Context {
        rsp: spec_return_slot(parts.stack_ptr),
        rbp: spec_return_slot(parts.stack_ptr),
        rip: env.symbols.user_mode_trampoline,
        r15: parts.entry,
        r14: parts.user_stack.top,
        ..Context::spec_new()
    }
}

/// `process` is the user process that was made of `parts`.
pub open spec fn is_user_process(
    process: Process,
    parts: UserParts,
    pid: Pid,
    name: &'static str,
    parent: Option<Pid>,
    credentials: Credentials,
    env: KernelEnv,
) -> bool {
    &&& process.wf()
    &&& process.is_fresh(pid, name, parent, credentials, false, parts.stack_ptr, env)
    &&& process.regions.backing == parts.regions_backing
    &&& process.address_space == parts.space
    &&& process.user_stack == Some(parts.user_stack)
    &&& process.user_entry == Some(parts.entry)
    &&& process.context == spec_user_context(parts, env)
}

impl Process {
    /// Makes a user process from the program at `path`.
    pub fn new_user<D: BlockDevice>(
        pid: Pid,
        name: &'static str,
        parent: Option<Pid>,
        path: &'static str,
        credentials: Credentials,
        heap: &mut KernelAllocator,
        pm: &mut PhysicalMemory,
        mem: &mut DirectMap,
        volume: &Option<FatVolume>,
        device: &D,
        env: &KernelEnv,
    ) -> (res: Result<Process, ProcessError>)
        requires
            old(heap).wf(),
            old(pm).wf(),
            volume matches Some(v) ==> v.wf(),
        ensures
            final(heap).wf(),
            final(heap).start == old(heap).start,
            final(heap).size == old(heap).size,
            final(pm).wf(),
            final(pm).map == old(pm).map,
            final(pm).reserved_limit == old(pm).reserved_limit,
            res matches Ok(process) ==> process.wf() && process.pid == pid && process.state
                == ProcessState::Ready && !process.is_idle && process.parent == parent
                && process.address_space.kind == AddressSpaceKind::User && process.user_entry
                is Some,
            device.storage() matches Some(storage) ==> ({
                let plan = spec_new_user(
                    paging_state(old(mem), old(pm)),
                    old(pm).map@,
                    old(pm).reserved_limit,
                    old(heap).list@,
                    env.kernel_cr3,
                    *volume,
                    storage,
                    device.spec_block_size(),
                    path.spec_bytes(),
                );
                &&& paging_state(final(mem), final(pm)) == plan.paging
                &&& final(heap).list@ == plan.list
                &&& match plan.result {
                    Err(e) => res is Err && res->Err_0 == e,
                    Ok(parts) => res is Ok && is_user_process(
                        res->Ok_0,
                        parts,
                        pid,
                        name,
                        parent,
                        credentials,
                        *env,
                    ),
                }
            }),
    {
        let (image, data) = match load_elf(volume, device, path) {
            Ok(loaded) => loaded,
            Err(e) => {
                return Err(
                    match e {
                        LoaderError::File(FileError::NotFound) => ProcessError::PathNotFound,
                        LoaderError::File(_) => ProcessError::UserImageIo,
                        LoaderError::Elf(_) => ProcessError::InvalidElf,
                    },
                );
            },
        };
        let (address_space, user_stack) = match create_default_user_address_space(
            mem,
            pm,
            env.kernel_cr3,
        ) {
            Ok(made) => made,
            Err(e) => { return Err(e); },
        };
        match map_user_segments(mem, pm, &address_space, &image, data.as_slice()) {
            Ok(()) => {},
            Err(e) => { return Err(e); },
        }
        let layout = Layout { size: KERNEL_STACK_SIZE, align: KERNEL_STACK_ALIGN };
        let stack_ptr = match allocate(heap, layout) {
            Some(ptr) => ptr,
            None => { return Err(ProcessError::StackAllocationFailed); },
        };
        let aligned_top = kernel_stack_slot(stack_ptr);
        let mut context = Context::new();
        context.rsp = aligned_top;
        context.rbp = aligned_top;
        context.rip = env.symbols.user_mode_trampoline;
        context.r15 = image.entry;
        context.r14 = user_stack.top();
        let mut process = Process {
            pid,
            parent,
            name,
            credentials,
            address_space,
            state: ProcessState::Ready,
            wait_channel: None,
            exit_code: None,
            is_idle: false,
            preempt_return: None,
            cpu_slices: 0,
            fds: vec![None; MAX_FDS],
            context,
            stack_ptr,
            stack_layout: Some(layout),
            return_slot: aligned_top,
            return_target: env.symbols.process_exit,
            regions: MemoryRegionList::new(),
            user_stack: Some(user_stack),
            user_entry: Some(image.entry),
        };
        match process.regions.register(
            heap,
            OwnedRegion {
                base: stack_ptr,
                layout,
                kind: MemoryRegionKind::Stack,
                permissions: MemoryPermissions::read_write(),
            },
        ) {
            Ok(()) => {},
            Err(e) => { return Err(e); },
        }
        process.install_standard_fds(env.scratch);
        assert(process.regions@ =~= seq![stack_region(stack_ptr)]);
        Ok(process)
    }
}

/// What making a user process does, on a disk that holds `storage`, to the
/// page tables, the heap and the table, and what it gives: the plan of the
/// new process is carried out; where it works out, room is made in the
/// table for the process, which is entered as its last; where no room can
/// be made, the process gives back what it took from the heap.
pub open spec fn spec_user_spawned(
    before: ProcessTable,
    after: ProcessTable,
    paging: PagingState,
    paging_after: PagingState,
    map: Seq<MemoryRegion>,
    limit: u64,
    list: Seq<ListNode>,
    list_after: Seq<ListNode>,
    env: KernelEnv,
    volume: Option<FatVolume>,
    storage: Seq<u8>,
    block_size: usize,
    name: &'static str,
    parent: Option<Pid>,
    path: Seq<u8>,
    res: Result<Pid, ProcessError>,
) -> bool {
    let plan = spec_new_user(paging, map, limit, list, env.kernel_cr3, volume, storage, block_size, path);
    &&& paging_after == plan.paging
    &&& match plan.result {
        Err(e) => res == Err::<Pid, ProcessError>(e) && list_after == plan.list && after.backing
            == before.backing,
        Ok(parts) => if before@.len() + 1 > usize::MAX {
            res == Err::<Pid, ProcessError>(ProcessError::TooManyProcesses)
        } else {
            let (grown, backing, growth) = spec_grow(
                plan.list,
                before.backing,
                (before@.len() + 1) as usize,
                PROCESS_BYTES,
            );
            &&& after.backing == backing
            &&& match spec_growth_result(growth) {
                Ok(()) => res == Ok::<Pid, ProcessError>(before.next_pid) && list_after == grown
                    && is_user_process(
                    after@.last(),
                    parts,
                    before.next_pid,
                    name,
                    parent,
                    spec_inherited_credentials(before@, parent),
                    env,
                ),
                Err(e) => res == Err::<Pid, ProcessError>(e) && list_after == spec_release_parts(
                    grown,
                    seq![stack_region(parts.stack_ptr)],
                    parts.regions_backing,
                    parts.stack_ptr,
                    Some(stack_layout()),
                ),
            }
        },
    }
}

impl ProcessTable {
    /// Makes a user process from the program at `path` and enters it in the table.
    pub fn spawn_user_process<D: BlockDevice>(
        &mut self,
        heap: &mut KernelAllocator,
        pm: &mut PhysicalMemory,
        mem: &mut DirectMap,
        volume: &Option<FatVolume>,
        device: &D,
        env: &KernelEnv,
        name: &'static str,
        parent: Option<Pid>,
        path: &'static str,
    ) -> (res: Result<Pid, ProcessError>)
        requires
            old(self).wf(),
            old(heap).wf(),
            old(pm).wf(),
            volume matches Some(v) ==> v.wf(),
        ensures
            final(self).wf(),
            final(heap).wf(),
            final(heap).start == old(heap).start,
            final(heap).size == old(heap).size,
            final(pm).wf(),
            final(pm).map == old(pm).map,
            final(pm).reserved_limit == old(pm).reserved_limit,
            final(self).initialized == old(self).initialized,
            final(self).idle_pid == old(self).idle_pid,
            final(self).init_pid == old(self).init_pid,
            old(self).next_pid == u32::MAX ==> res == Err::<Pid, ProcessError>(
                ProcessError::TooManyProcesses,
            ) && *final(self) == *old(self) && *final(heap) == *old(heap) && *final(pm) == *old(pm)
                && final(mem)@ == old(mem)@,
            old(self).next_pid < u32::MAX ==> final(self).next_pid == old(self).next_pid + 1,
            res is Err ==> final(self)@ == old(self)@,
            res matches Ok(pid) ==> pid == old(self).next_pid && final(self)@ == old(self)@.push(
                final(self)@.last(),
            ) && final(self)@.last().pid == pid && final(self)@.last().parent == parent && final(self)@.last().state == ProcessState::Ready && final(self)@.last().address_space.kind
                == AddressSpaceKind::User,
            old(self).next_pid < u32::MAX ==> (device.storage() matches Some(storage)
                ==> spec_user_spawned(
                *old(self),
                *final(self),
                paging_state(old(mem), old(pm)),
                paging_state(final(mem), final(pm)),
                old(pm).map@,
                old(pm).reserved_limit,
                old(heap).list@,
                final(heap).list@,
                *env,
                *volume,
                storage,
                device.spec_block_size(),
                name,
                parent,
                path.spec_bytes(),
                res,
            )),
    {
        let pid = match self.allocate_pid() {
            Ok(pid) => pid,
            Err(e) => { return Err(e); },
        };
        let credentials = self.inherited_credentials(parent);
        let process = match Process::new_user(
            pid,
            name,
            parent,
            path,
            credentials,
            heap,
            pm,
            mem,
            volume,
            device,
            env,
        ) {
            Ok(process) => process,
            Err(e) => { return Err(e); },
        };
        assert(self.idle_pid != Some(pid));
        match self.push(heap, process) {
            Ok(()) => {},
            Err(e) => { return Err(e); },
        }
        assert(self@.drop_last() =~= old(self)@);
        assert(self@ =~= old(self)@.push(self@.last()));
        Ok(pid)
    }
}

/// Makes a user process from the program at `path`, as a child of the
/// current process.
pub fn spawn_user_process<D: BlockDevice>(
    sched: &mut Scheduler,
    heap: &mut KernelAllocator,
    pm: &mut PhysicalMemory,
    mem: &mut DirectMap,
    volume: &Option<FatVolume>,
    device: &D,
    env: &KernelEnv,
    name: &'static str,
    path: &'static str,
) -> (res: Result<Pid, ProcessError>)
    requires
        old(sched).wf(),
        old(heap).wf(),
        old(pm).wf(),
        volume matches Some(v) ==> v.wf(),
    ensures
        final(sched).wf(),
        final(heap).wf(),
        final(heap).start == old(heap).start,
        final(heap).size == old(heap).size,
        final(pm).wf(),
        final(pm).map == old(pm).map,
        final(pm).reserved_limit == old(pm).reserved_limit,
        final(sched).current_pid == old(sched).current_pid,
        final(sched).cpu == old(sched).cpu,
        final(sched).need_resched == old(sched).need_resched,
        !old(sched).table.initialized ==> res == Err::<Pid, ProcessError>(
            ProcessError::NotInitialized,
        ) && *final(sched) == *old(sched) && *final(heap) == *old(heap) && *final(pm) == *old(pm)
            && final(mem)@ == old(mem)@,
        res is Err ==> final(sched).table@ == old(sched).table@,
        res matches Ok(pid) ==> pid == old(sched).table.next_pid && final(sched).table@ == old(sched).table@.push(final(sched).table@.last()) && final(sched).table@.last().pid == pid
            && final(sched).table@.last().state == ProcessState::Ready && final(sched).table@.last().address_space.kind == AddressSpaceKind::User && final(sched).table@.last().parent == (if old(sched).current_pid == 0 {
            None
        } else {
            Some(old(sched).current_pid)
        }),
        final(sched).table.initialized == old(sched).table.initialized,
        final(sched).table.idle_pid == old(sched).table.idle_pid,
        final(sched).table.init_pid == old(sched).table.init_pid,
        old(sched).table.initialized && old(sched).table.next_pid == u32::MAX ==> res == Err::<
            Pid,
            ProcessError,
        >(ProcessError::TooManyProcesses) && *final(sched) == *old(sched) && *final(heap) == *old(heap) && *final(pm) == *old(pm) && final(mem)@ == old(mem)@,
        old(sched).table.initialized && old(sched).table.next_pid < u32::MAX ==> final(sched).table.next_pid == old(sched).table.next_pid + 1,
        old(sched).table.initialized && old(sched).table.next_pid < u32::MAX ==> (
        device.storage() matches Some(storage) ==> spec_user_spawned(
            old(sched).table,
            final(sched).table,
            paging_state(old(mem), old(pm)),
            paging_state(final(mem), final(pm)),
            old(pm).map@,
            old(pm).reserved_limit,
            old(heap).list@,
            final(heap).list@,
            *env,
            *volume,
            storage,
            device.spec_block_size(),
            name,
            if old(sched).current_pid == 0 {
                None
            } else {
                Some(old(sched).current_pid)
            },
            path.spec_bytes(),
            res,
        )),
{
    if !sched.table.initialized {
        return Err(ProcessError::NotInitialized);
    }
    let parent = current_pid(sched);
    let res = sched.table.spawn_user_process(heap, pm, mem, volume, device, env, name, parent, path);
    proof {
        lemma_spawn_keeps_running(old(sched).table@, sched.table@, sched.current_pid);
    }
    res
}

} // verus!
