//! The process control block.

use vstd::prelude::*;
use crate::drivers::CharDeviceId;
use crate::mem::backing::Backing;
use crate::mem::heap::{
    allocate, deallocate, effective_align, effective_size, first_fit, spec_carve, spec_free,
    KernelAllocator, Layout, ListNode,
};
use crate::process::fd::{FileDescriptor, OpenFile, VfsHandle};
use crate::process::regions::{spec_register, spec_position, spec_swap_remove, MemoryRegionList, OwnedRegion, REGION_BYTES};
use crate::process::types::{
    AddressSpace, Context, KernelSymbols, MemoryPermissions, MemoryRegionKind, Pid, ProcessError,
    ProcessState, UserStack, WaitChannel, KERNEL_STACK_SIZE, MAX_FDS, SCRATCH_FD, STDERR_FD,
    STDIN_FD, STDOUT_FD,
};
use crate::user::Credentials;
use crate::vfs::ata::AtaScratchFile;

verus! {

/// Alignment of a kernel stack.
pub const KERNEL_STACK_ALIGN: u64 = 16;

/// What the kernel knows when it makes a process: the root of its own page
/// tables, the addresses of its entry points, and the scratch file, if one
/// is mounted.
#[derive(Clone, Copy, Debug)]
pub struct KernelEnv {
    pub kernel_cr3: u64,
    pub symbols: KernelSymbols,
    pub scratch: Option<AtaScratchFile>,
}

/// All that the kernel holds about one process.
pub struct Process {
    pub pid: Pid,
    pub parent: Option<Pid>,
    pub name: &'static str,
    pub credentials: Credentials,
    pub address_space: AddressSpace,
    pub state: ProcessState,
    pub wait_channel: Option<WaitChannel>,
    pub exit_code: Option<i32>,
    pub is_idle: bool,
    /// Where a preempted task goes on, while it waits to be scheduled again.
    pub preempt_return: Option<u64>,
    pub cpu_slices: u64,
    pub fds: Vec<Option<FileDescriptor>>,
    pub context: Context,
    pub stack_ptr: u64,
    pub stack_layout: Option<Layout>,
    /// The slot at the top of the kernel stack that holds the return address
    /// of the task's entry, and the address in it: a task that returns exits.
    pub return_slot: u64,
    pub return_target: u64,
    pub regions: MemoryRegionList,
    pub user_stack: Option<UserStack>,
    pub user_entry: Option<u64>,
}

/// The slot at the top of the stack at `stack_ptr`: eight bytes below the
/// stack's end, once that is moved down to a multiple of 16.
pub open spec fn spec_return_slot(stack_ptr: u64) -> u64 {
    let top = ((stack_ptr + KERNEL_STACK_SIZE) as u64) & !0xFu64;
    if top >= 8 {
        (top - 8) as u64
    } else {
        0
    }
}

/// The layout of a kernel stack.
pub open spec fn stack_layout() -> Layout {
    Layout { size: KERNEL_STACK_SIZE, align: KERNEL_STACK_ALIGN }
}

/// The region that records a kernel stack.
pub open spec fn stack_region(stack_ptr: u64) -> OwnedRegion {
    OwnedRegion {
        base: stack_ptr,
        layout: stack_layout(),
        kind: MemoryRegionKind::Stack,
        permissions: MemoryPermissions::spec_read_write(),
    }
}

/// The descriptors that every process starts with: the keyboard to read
/// from, the console to write to, twice, and the scratch file where one is
/// mounted.
pub open spec fn spec_initial_fds(scratch: Option<AtaScratchFile>) -> Seq<Option<FileDescriptor>> {
    Seq::new(
        MAX_FDS as nat,
        |i: int|
            if i == STDIN_FD {
                Some(FileDescriptor::Char(CharDeviceId::Keyboard))
            } else if i == STDOUT_FD || i == STDERR_FD {
                Some(FileDescriptor::Char(CharDeviceId::Console))
            } else if i == SCRATCH_FD && scratch is Some {
                Some(
                    FileDescriptor::Vfs(VfsHandle { file: OpenFile::Scratch(scratch->0), offset: 0 }),
                )
            } else {
                None
            },
    )
}

/// The heap's free list after the regions of a process were given back, the
/// last one first. The region of the kernel stack stands for the stack
/// itself, which is given back once.
pub open spec fn spec_release_regions(
    list: Seq<ListNode>,
    regions: Seq<OwnedRegion>,
    stack_ptr: u64,
    stack_layout: Option<Layout>,
) -> Seq<ListNode>
    decreases regions.len(),
{
    if regions.len() == 0 {
        list
    } else {
        let region = regions.last();
        match region.kind {
            MemoryRegionKind::Stack => match stack_layout {
                Some(layout) => spec_release_regions(
                    spec_free(list, stack_ptr, layout.size),
                    regions.drop_last(),
                    stack_ptr,
                    None,
                ),
                None => spec_release_regions(list, regions.drop_last(), stack_ptr, None),
            },
            _ => spec_release_regions(
                spec_free(list, region.base, region.layout.size),
                regions.drop_last(),
                stack_ptr,
                stack_layout,
            ),
        }
    }
}

/// The heap's free list after the regions of a process and then the block
/// that held the list of them were given back.
pub open spec fn spec_release_parts(
    list: Seq<ListNode>,
    regions: Seq<OwnedRegion>,
    backing: Backing,
    stack_ptr: u64,
    stack_layout: Option<Layout>,
) -> Seq<ListNode> {
    let freed = spec_release_regions(list, regions, stack_ptr, stack_layout);
    if backing.capacity != 0 {
        spec_free(freed, backing.addr, (backing.capacity * REGION_BYTES) as u64)
    } else {
        freed
    }
}

/// The heap's free list after a process gave back all that it owns.
pub open spec fn spec_release_process(list: Seq<ListNode>, process: Process) -> Seq<ListNode> {
    spec_release_parts(
        list,
        process.regions@,
        process.regions.backing,
        process.stack_ptr,
        process.stack_layout,
    )
}

/// The index of the first free slot of a descriptor table, or the number of
/// slots where all are taken.
pub open spec fn spec_first_free(fds: Seq<Option<FileDescriptor>>) -> int
    decreases fds.len(),
{
    if fds.len() == 0 || fds[0] is None {
        0
    } else {
        1 + spec_first_free(fds.drop_first())
    }
}

impl Process {
    /// The descriptor table has its 16 slots, and the regions fit their block.
    pub open spec fn wf(&self) -> bool {
        &&& self.fds@.len() == MAX_FDS
        &&& self.regions.wf()
    }

    /// What a process is like when it was just made, on a stack at `stack_ptr`.
    pub open spec fn is_fresh(
        &self,
        pid: Pid,
        name: &'static str,
        parent: Option<Pid>,
        credentials: Credentials,
        is_idle: bool,
        stack_ptr: u64,
        env: KernelEnv,
    ) -> bool {
        &&& self.pid == pid
        &&& self.parent == parent
        &&& self.name == name
        &&& self.credentials == credentials
        &&& self.state == ProcessState::Ready
        &&& self.wait_channel is None
        &&& self.exit_code is None
        &&& self.is_idle == is_idle
        &&& self.preempt_return is None
        &&& self.cpu_slices == 0
        &&& self.fds@ == spec_initial_fds(env.scratch)
        &&& self.stack_ptr == stack_ptr
        &&& self.stack_layout == Some(stack_layout())
        &&& self.return_slot == spec_return_slot(stack_ptr)
        &&& self.return_target == env.symbols.process_exit
        &&& self.regions@ == seq![stack_region(stack_ptr)]
    }

    /// Makes a kernel task that begins at `entry`.
    ///
    /// The task gets a kernel stack from the heap; without one the call
    /// fails with `StackAllocationFailed`. Its stack pointer stands on the
    /// return slot, which sends a task that returns to the exit trampoline.
    /// It runs in the kernel's address space, with interrupts on. Where the
    /// stack cannot be recorded as a region the call fails with
    /// `AllocationFailed`, and the stack is lost.
    pub fn new_kernel(
        pid: Pid,
        name: &'static str,
        parent: Option<Pid>,
        entry: u64,
        is_idle: bool,
        credentials: Credentials,
        heap: &mut KernelAllocator,
        env: &KernelEnv,
    ) -> (res: Result<Process, ProcessError>)
        requires
            old(heap).wf(),
        ensures
            final(heap).wf(),
            final(heap).start == old(heap).start,
            final(heap).size == old(heap).size,
            match first_fit(old(heap).list@, 0, KERNEL_STACK_SIZE, KERNEL_STACK_ALIGN) {
                None => res is Err && res->Err_0 == ProcessError::StackAllocationFailed && final(heap).list@ == old(heap).list@,
                Some((index, stack_ptr)) => {
                    let (regions, backing, list, registered) = spec_register(
                        Seq::empty(),
                        Backing { addr: 0, capacity: 0 },
                        spec_carve(old(heap).list@, index, stack_ptr, KERNEL_STACK_SIZE),
                        stack_region(stack_ptr),
                    );
                    &&& final(heap).list@ == list
                    &&& registered is Err ==> res is Err && res->Err_0
                        == ProcessError::AllocationFailed
                    &&& registered is Ok ==> res is Ok && res->Ok_0.wf() && res->Ok_0.is_fresh(
                        pid,
                        name,
                        parent,
                        credentials,
                        is_idle,
                        stack_ptr,
                        *env,
                    ) && res->Ok_0.regions.backing == backing && res->Ok_0.address_space
                        == AddressSpace::spec_kernel(env.kernel_cr3) && res->Ok_0.context == (Context {
                        rsp: spec_return_slot(stack_ptr),
                        rbp: spec_return_slot(stack_ptr),
                        rip: entry,
                        ..Context::spec_new()
                    }) && res->Ok_0.user_stack is None && res->Ok_0.user_entry is None
                },
            },
    {
        let layout = Layout { size: KERNEL_STACK_SIZE, align: KERNEL_STACK_ALIGN };
        let stack_ptr = match allocate(heap, layout) {
            Some(ptr) => ptr,
            None => { return Err(ProcessError::StackAllocationFailed); },
        };
        let aligned_top = kernel_stack_slot(stack_ptr);
        let mut context = Context::new();
        context.rsp = aligned_top;
        context.rbp = aligned_top;
        context.rip = entry;
        let address_space = AddressSpace::kernel(env.kernel_cr3);
        let mut process = Process {
            pid,
            parent,
            name,
            credentials,
            address_space,
            state: ProcessState::Ready,
            wait_channel: None,
            exit_code: None,
            is_idle,
            preempt_return: None,
            cpu_slices: 0,
            fds: vec![None; MAX_FDS],
            context,
            stack_ptr,
            stack_layout: Some(layout),
            return_slot: aligned_top,
            return_target: env.symbols.process_exit,
            regions: MemoryRegionList::new(),
            user_stack: None,
            user_entry: None,
        };
        process.install_standard_fds(env.scratch);
        match process.regions.register(
            heap,
            OwnedRegion {
                base: stack_ptr,
                layout,
                kind: MemoryRegionKind::Stack,
                permissions: MemoryPermissions::read_write(),
            },
        ) {
            Ok(()) => {},
            Err(e) => { return Err(e); },
        }
        assert(process.regions@ =~= seq![stack_region(stack_ptr)]);
        Ok(process)
    }

    /// Fills the descriptor table of a process that was just made.
    pub fn install_standard_fds(&mut self, scratch: Option<AtaScratchFile>)
        requires
            old(self).fds@.len() == MAX_FDS,
            forall|i: int| 0 <= i < MAX_FDS ==> old(self).fds@[i] is None,
        ensures
            final(self).fds@ == spec_initial_fds(scratch),
            *final(self) == (Process { fds: final(self).fds, ..*old(self) }),
    {
        self.fds[STDOUT_FD] = Some(FileDescriptor::Char(CharDeviceId::Console));
        self.fds[STDERR_FD] = Some(FileDescriptor::Char(CharDeviceId::Console));
        self.fds[STDIN_FD] = Some(FileDescriptor::Char(CharDeviceId::Keyboard));
        match scratch {
            Some(file) => {
                self.fds[SCRATCH_FD] = Some(
                    FileDescriptor::Vfs(VfsHandle::new(OpenFile::Scratch(file))),
                );
            },
            None => {},
        }
        assert(self.fds@ =~= spec_initial_fds(scratch));
    }

    pub fn pid(&self) -> (pid: Pid)
        ensures
            pid == self.pid,
    {
        self.pid
    }

    pub fn name(&self) -> (name: &'static str)
        ensures
            name == self.name,
    {
        self.name
    }

    pub fn state(&self) -> (state: ProcessState)
        ensures
            state == self.state,
    {
        self.state
    }

    pub fn parent(&self) -> (parent: Option<Pid>)
        ensures
            parent == self.parent,
    {
        self.parent
    }

    pub fn credentials(&self) -> (credentials: Credentials)
        ensures
            credentials == self.credentials,
    {
        self.credentials
    }

    pub fn set_credentials(&mut self, credentials: Credentials)
        ensures
            *final(self) == (Process { credentials, ..*old(self) }),
    {
        self.credentials = credentials;
    }

    pub fn address_space(&self) -> (space: AddressSpace)
        ensures
            space == self.address_space,
    {
        self.address_space
    }

    pub fn set_address_space(&mut self, space: AddressSpace)
        ensures
            *final(self) == (Process { address_space: space, ..*old(self) }),
    {
        self.address_space = space;
    }

    pub fn user_stack(&self) -> (stack: Option<UserStack>)
        ensures
            stack == self.user_stack,
    {
        self.user_stack
    }

    pub fn set_user_stack(&mut self, stack: Option<UserStack>)
        ensures
            *final(self) == (Process { user_stack: stack, ..*old(self) }),
    {
        self.user_stack = stack;
    }

    pub fn user_entry(&self) -> (entry: Option<u64>)
        ensures
            entry == self.user_entry,
    {
        self.user_entry
    }

    pub fn set_user_entry(&mut self, entry: Option<u64>)
        ensures
            *final(self) == (Process { user_entry: entry, ..*old(self) }),
    {
        self.user_entry = entry;
    }

    pub fn is_idle(&self) -> (idle: bool)
        ensures
            idle == self.is_idle,
    {
        self.is_idle
    }

    pub fn cpu_slices(&self) -> (slices: u64)
        ensures
            slices == self.cpu_slices,
    {
        self.cpu_slices
    }

    /// The end of the kernel stack: where the processor's stack pointer is
    /// set when the process enters the kernel from user mode.
    pub fn kernel_stack_top(&self) -> (top: u64)
        ensures
            top == self.spec_kernel_stack_top(),
    {
        self.stack_ptr.saturating_add(KERNEL_STACK_SIZE)
    }

    pub open spec fn spec_kernel_stack_top(&self) -> u64 {
        if self.stack_ptr + KERNEL_STACK_SIZE > u64::MAX {
            u64::MAX
        } else {
            (self.stack_ptr + KERNEL_STACK_SIZE) as u64
        }
    }

    /// Parks the address at which a preempted task goes on.
    pub fn set_preempt_return(&mut self, rip: u64)
        ensures
            *final(self) == (Process { preempt_return: Some(rip), ..*old(self) }),
    {
        self.preempt_return = Some(rip);
    }

    /// Takes the parked address, if there is one.
    pub fn take_preempt_return(&mut self) -> (rip: Option<u64>)
        ensures
            rip == old(self).preempt_return,
            *final(self) == (Process { preempt_return: None, ..*old(self) }),
    {
        self.preempt_return.take()
    }

    /// Puts `descriptor` into slot `index`.
    pub fn set_fd(&mut self, index: usize, descriptor: FileDescriptor) -> (res: Result<
        (),
        ProcessError,
    >)
        requires
            old(self).wf(),
        ensures
            final(self).wf(),
            index >= MAX_FDS ==> res == Err::<(), ProcessError>(ProcessError::InvalidFileDescriptor)
                && *final(self) == *old(self),
            index < MAX_FDS ==> res is Ok && *final(self) == (Process {
                fds: final(self).fds,
                ..*old(self)
            }) && final(self).fds@ == old(self).fds@.update(index as int, Some(descriptor)),
    {
        if index >= MAX_FDS {
            return Err(ProcessError::InvalidFileDescriptor);
        }
        self.fds[index] = Some(descriptor);
        Ok(())
    }

    /// Puts `descriptor` into the first free slot and returns the slot's index.
    pub fn allocate_fd_slot(&mut self, descriptor: FileDescriptor) -> (res: Result<
        usize,
        ProcessError,
    >)
        requires
            old(self).wf(),
        ensures
            final(self).wf(),
            *final(self) == (Process { fds: final(self).fds, ..*old(self) }),
            spec_first_free(old(self).fds@) >= MAX_FDS ==> res == Err::<usize, ProcessError>(
                ProcessError::NoFreeFileDescriptors,
            ) && *final(self) == *old(self),
            spec_first_free(old(self).fds@) < MAX_FDS ==> res == Ok::<usize, ProcessError>(
                spec_first_free(old(self).fds@) as usize,
            ) && final(self).fds@ == old(self).fds@.update(
                spec_first_free(old(self).fds@),
                Some(descriptor),
            ),
    {
        let mut index: usize = 0;
        assert(self.fds@.subrange(0, MAX_FDS as int) =~= self.fds@);
        while index < MAX_FDS
            invariant
                index <= MAX_FDS,
                *self == *old(self),
                self.wf(),
                spec_first_free(self.fds@) == index + spec_first_free(
                    self.fds@.subrange(index as int, MAX_FDS as int),
                ),
            decreases MAX_FDS - index,
        {
            if self.fds[index].is_none() {
                self.fds[index] = Some(descriptor);
                return Ok(index);
            }
            assert(self.fds@.subrange(index as int, MAX_FDS as int).drop_first()
                =~= self.fds@.subrange(index + 1, MAX_FDS as int));
            index += 1;
        }
        Err(ProcessError::NoFreeFileDescriptors)
    }

    /// Empties slot `index` and hands out what was in it.
    pub fn release_fd_slot(&mut self, index: usize) -> (res: Result<FileDescriptor, ProcessError>)
        requires
            old(self).wf(),
        ensures
            final(self).wf(),
            *final(self) == (Process { fds: final(self).fds, ..*old(self) }),
            index < MAX_FDS && old(self).fds@[index as int] is Some ==> res == Ok::<
                FileDescriptor,
                ProcessError,
            >(old(self).fds@[index as int]->0) && final(self).fds@ == old(self).fds@.update(
                index as int,
                None,
            ),
            !(index < MAX_FDS && old(self).fds@[index as int] is Some) ==> res == Err::<
                FileDescriptor,
                ProcessError,
            >(ProcessError::InvalidFileDescriptor) && *final(self) == *old(self),
    {
        if index >= MAX_FDS {
            return Err(ProcessError::InvalidFileDescriptor);
        }
        match self.fds[index] {
            Some(descriptor) => {
                self.fds[index] = None;
                Ok(descriptor)
            },
            None => Err(ProcessError::InvalidFileDescriptor),
        }
    }

    /// The descriptor in slot `index`, if there is one.
    pub fn fd(&self, index: usize) -> (descriptor: Option<FileDescriptor>)
        requires
            self.wf(),
        ensures
            descriptor == (if index < MAX_FDS { self.fds@[index as int] } else { None }),
    {
        if index < MAX_FDS {
            self.fds[index]
        } else {
            None
        }
    }

    /// Takes a block of the heap for the process and records it as a region.
    /// Where the block cannot be recorded it is lost.
    pub fn allocate_region_with_permissions(
        &mut self,
        heap: &mut KernelAllocator,
        layout: Layout,
        kind: MemoryRegionKind,
        permissions: MemoryPermissions,
    ) -> (res: Result<u64, ProcessError>)
        requires
            old(self).wf(),
            old(heap).wf(),
        ensures
            final(self).wf(),
            final(heap).wf(),
            final(heap).start == old(heap).start,
            final(heap).size == old(heap).size,
            *final(self) == (Process { regions: final(self).regions, ..*old(self) }),
            match first_fit(
                old(heap).list@,
                0,
                effective_size(layout.size),
                effective_align(layout.align),
            ) {
                None => res == Err::<u64, ProcessError>(ProcessError::AllocationFailed) && final(heap).list@ == old(heap).list@ && final(self).regions == old(self).regions,
                Some((index, ptr)) => {
                    let (regions, backing, list, registered) = spec_register(
                        old(self).regions@,
                        old(self).regions.backing,
                        spec_carve(old(heap).list@, index, ptr, effective_size(layout.size)),
                        OwnedRegion { base: ptr, layout, kind, permissions },
                    );
                    &&& final(heap).list@ == list
                    &&& final(self).regions@ == regions
                    &&& final(self).regions.backing == backing
                    &&& res == (match registered {
                        Ok(()) => Ok::<u64, ProcessError>(ptr),
                        Err(e) => Err::<u64, ProcessError>(e),
                    })
                },
            },
    {
        let ptr = match allocate(heap, layout) {
            Some(ptr) => ptr,
            None => { return Err(ProcessError::AllocationFailed); },
        };
        match self.regions.register(heap, OwnedRegion { base: ptr, layout, kind, permissions }) {
            Ok(()) => Ok(ptr),
            Err(e) => Err(e),
        }
    }

    /// Takes a block of the heap that the process may read and write.
    pub fn allocate_region(&mut self, heap: &mut KernelAllocator, layout: Layout, kind: MemoryRegionKind) -> (res:
        Result<u64, ProcessError>)
        requires
            old(self).wf(),
            old(heap).wf(),
        ensures
            final(self).wf(),
            final(heap).wf(),
            final(heap).start == old(heap).start,
            final(heap).size == old(heap).size,
            *final(self) == (Process { regions: final(self).regions, ..*old(self) }),
            match first_fit(
                old(heap).list@,
                0,
                effective_size(layout.size),
                effective_align(layout.align),
            ) {
                None => res == Err::<u64, ProcessError>(ProcessError::AllocationFailed) && final(heap).list@ == old(heap).list@ && final(self).regions == old(self).regions,
                Some((index, ptr)) => {
                    let (regions, backing, list, registered) = spec_register(
                        old(self).regions@,
                        old(self).regions.backing,
                        spec_carve(old(heap).list@, index, ptr, effective_size(layout.size)),
                        OwnedRegion {
                            base: ptr,
                            layout,
                            kind,
                            permissions: MemoryPermissions::spec_read_write(),
                        },
                    );
                    &&& final(heap).list@ == list
                    &&& final(self).regions@ == regions
                    &&& final(self).regions.backing == backing
                    &&& res == (match registered {
                        Ok(()) => Ok::<u64, ProcessError>(ptr),
                        Err(e) => Err::<u64, ProcessError>(e),
                    })
                },
            },
    {
        self.allocate_region_with_permissions(heap, layout, kind, MemoryPermissions::read_write())
    }

    /// Gives the region that begins at `ptr` back to the heap.
    pub fn release_region(&mut self, heap: &mut KernelAllocator, ptr: u64) -> (res: Result<
        (),
        ProcessError,
    >)
        requires
            old(self).wf(),
            old(heap).wf(),
        ensures
            final(self).wf(),
            final(heap).wf(),
            final(heap).start == old(heap).start,
            final(heap).size == old(heap).size,
            *final(self) == (Process { regions: final(self).regions, ..*old(self) }),
            final(self).regions.backing == old(self).regions.backing,
            ({
                let index = spec_position(old(self).regions@, ptr);
                if index < old(self).regions@.len() {
                    let region = old(self).regions@[index];
                    &&& res is Ok
                    &&& final(self).regions@ == spec_swap_remove(old(self).regions@, index)
                    &&& final(heap).list@ == (if region.base != 0 {
                        spec_free(old(heap).list@, region.base, region.layout.size)
                    } else {
                        old(heap).list@
                    })
                } else {
                    &&& res == Err::<(), ProcessError>(ProcessError::MemoryRegionNotFound)
                    &&& final(self).regions@ == old(self).regions@
                    &&& final(heap).list@ == old(heap).list@
                }
            }),
    {
        match self.regions.remove_by_ptr(ptr) {
            Some(region) => {
                if region.base != 0 {
                    let _ = deallocate(heap, region.base, region.layout);
                }
                Ok(())
            },
            None => Err(ProcessError::MemoryRegionNotFound),
        }
    }

    /// Ends the process: all that it owns goes back to the heap.
    pub fn release(self, heap: &mut KernelAllocator)
        requires
            self.wf(),
            old(heap).wf(),
        ensures
            final(heap).wf(),
            final(heap).start == old(heap).start,
            final(heap).size == old(heap).size,
            final(heap).list@ == spec_release_process(old(heap).list@, self),
    {
        let mut process = self;
        while process.regions.regions.len() > 0
            invariant
                heap.wf(),
                heap.start == old(heap).start,
                heap.size == old(heap).size,
                process.regions.wf(),
                process.regions.backing == self.regions.backing,
                process.stack_ptr == self.stack_ptr,
                spec_release_regions(
                    heap.list@,
                    process.regions@,
                    process.stack_ptr,
                    process.stack_layout,
                ) == spec_release_regions(
                    old(heap).list@,
                    self.regions@,
                    self.stack_ptr,
                    self.stack_layout,
                ),
            decreases process.regions@.len(),
        {
            let region = process.regions.drain_next().unwrap();
            match region.kind {
                MemoryRegionKind::Stack => {
                    match process.stack_layout.take() {
                        Some(layout) => {
                            let _ = deallocate(heap, process.stack_ptr, layout);
                        },
                        None => {},
                    }
                },
                _ => {
                    let _ = deallocate(heap, region.base, region.layout);
                },
            }
        }
        process.regions.release(heap);
    }
}

/// The return slot of the kernel stack at `stack_ptr`.
pub fn kernel_stack_slot(stack_ptr: u64) -> (slot: u64)
    requires
        stack_ptr + KERNEL_STACK_SIZE <= u64::MAX,
    ensures
        slot == spec_return_slot(stack_ptr),
{
    let stack_top = stack_ptr + KERNEL_STACK_SIZE;
    let aligned_top = stack_top & !0xFu64;
    aligned_top.saturating_sub(8)
}

} // verus!
