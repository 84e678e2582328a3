//! The plain values that describe a process.

use vstd::prelude::*;

verus! {

pub type Pid = u32;

pub const STDIN_FD: usize = 0;

pub const STDOUT_FD: usize = 1;

pub const STDERR_FD: usize = 2;

pub const SCRATCH_FD: usize = 3;

/// Slots of a file-descriptor table.
pub const MAX_FDS: usize = 16;

/// Bytes of a kernel stack.
pub const KERNEL_STACK_SIZE: u64 = 16 * 1024;

/// The flags that a task starts with: interrupts on.
pub const INITIAL_RFLAGS: u64 = 0x202;

/// Where to seek: from the start, from the present offset, from the end.
#[derive(Debug, Copy, Clone, PartialEq, Eq, Structural)]
pub enum SeekFrom {
    Start(u64),
    Current(i64),
    End(i64),
}

/// What a region of a process's memory is for.
#[derive(Clone, Copy, Debug, PartialEq, Eq, Structural)]
pub enum MemoryRegionKind {
    Stack,
    Heap,
    Other,
}

/// What a process may do with a region of its memory.
#[derive(Clone, Copy, Debug, PartialEq, Eq, Structural)]
pub struct MemoryPermissions {
    pub read: bool,
    pub write: bool,
    pub execute: bool,
}

impl MemoryPermissions {
    pub fn new(read: bool, write: bool, execute: bool) -> (p: MemoryPermissions)
        ensures
            p == (MemoryPermissions { read, write, execute }),
    {
        MemoryPermissions { read, write, execute }
    }

    pub fn read_write() -> (p: MemoryPermissions)
        ensures
            p == Self::spec_read_write(),
    {
        Self::new(true, true, false)
    }

    pub open spec fn spec_read_write() -> MemoryPermissions {
        MemoryPermissions { read: true, write: true, execute: false }
    }

    pub fn read_only() -> (p: MemoryPermissions)
        ensures
            p == (MemoryPermissions { read: true, write: false, execute: false }),
    {
        Self::new(true, false, false)
    }

    pub fn read_execute() -> (p: MemoryPermissions)
        ensures
            p == (MemoryPermissions { read: true, write: false, execute: true }),
    {
        Self::new(true, false, true)
    }

    pub fn read(&self) -> (yes: bool)
        ensures
            yes == self.read,
    {
        self.read
    }

    pub fn write(&self) -> (yes: bool)
        ensures
            yes == self.write,
    {
        self.write
    }

    pub fn execute(&self) -> (yes: bool)
        ensures
            yes == self.execute,
    {
        self.execute
    }
}

/// The registers that a context switch saves and restores.
#[derive(Clone, Copy, Debug, PartialEq, Eq, Structural)]
pub struct Context {
    pub r15: u64,
    pub r14: u64,
    pub r13: u64,
    pub r12: u64,
    pub rbx: u64,
    pub rbp: u64,
    pub rsp: u64,
    pub rip: u64,
    pub rflags: u64,
}

impl Context {
    /// All registers zero, interrupts on.
    pub fn new() -> (context: Context)
        ensures
            context == Self::spec_new(),
    {
        Context {
            r15: 0,
            r14: 0,
            r13: 0,
            r12: 0,
            rbx: 0,
            rbp: 0,
            rsp: 0,
            rip: 0,
            rflags: INITIAL_RFLAGS,
        }
    }

    pub open spec fn spec_new() -> Context {
        Context {
            r15: 0,
            r14: 0,
            r13: 0,
            r12: 0,
            rbx: 0,
            rbp: 0,
            rsp: 0,
            rip: 0,
            rflags: INITIAL_RFLAGS,
        }
    }
}

#[derive(Clone, Copy, Debug, PartialEq, Eq, Structural)]
pub enum AddressSpaceKind {
    Kernel,
    User,
}

/// The root of a set of page tables, and whose they are.
#[derive(Clone, Copy, Debug, PartialEq, Eq, Structural)]
pub struct AddressSpace {
    pub cr3: u64,
    pub kind: AddressSpaceKind,
}

impl AddressSpace {
    /// The kernel's own address space, rooted at `cr3`.
    pub fn kernel(cr3: u64) -> (space: AddressSpace)
        ensures
            space == (AddressSpace { cr3, kind: AddressSpaceKind::Kernel }),
    {
        AddressSpace { cr3, kind: AddressSpaceKind::Kernel }
    }

    pub open spec fn spec_kernel(cr3: u64) -> AddressSpace {
        AddressSpace { cr3, kind: AddressSpaceKind::Kernel }
    }

    pub fn with_cr3(cr3: u64, kind: AddressSpaceKind) -> (space: AddressSpace)
        ensures
            space == (AddressSpace { cr3, kind }),
    {
        AddressSpace { cr3, kind }
    }

    pub fn cr3(&self) -> (cr3: u64)
        ensures
            cr3 == self.cr3,
    {
        self.cr3
    }

    pub fn kind(&self) -> (kind: AddressSpaceKind)
        ensures
            kind == self.kind,
    {
        self.kind
    }

    pub fn is_user(&self) -> (yes: bool)
        ensures
            yes <==> self.kind == AddressSpaceKind::User,
    {
        match self.kind {
            AddressSpaceKind::User => true,
            AddressSpaceKind::Kernel => false,
        }
    }
}

/// The stack of a user process: its top and its size in bytes.
#[derive(Clone, Copy, Debug, PartialEq, Eq, Structural)]
pub struct UserStack {
    pub top: u64,
    pub size: usize,
}

impl UserStack {
    pub fn new(top: u64, size: usize) -> (stack: UserStack)
        ensures
            stack == (UserStack { top, size }),
    {
        UserStack { top, size }
    }

    pub fn top(&self) -> (top: u64)
        ensures
            top == self.top,
    {
        self.top
    }

    pub fn size(&self) -> (size: usize)
        ensures
            size == self.size,
    {
        self.size
    }

    /// The lowest address of the stack.
    pub fn base(&self) -> (base: u64)
        requires
            self.size <= self.top,
        ensures
            base == self.top - self.size,
    {
        self.top - self.size as u64
    }
}

#[derive(Clone, Copy, Debug, PartialEq, Eq, Structural)]
pub enum ProcessState {
    Ready,
    Running,
    Blocked,
    Zombie,
}

/// What a blocked process waits for, and what an event announces.
#[derive(Clone, Copy, Debug, PartialEq, Eq, Structural)]
pub enum WaitChannel {
    KeyboardInput,
    ChildAny,
    Child(Pid),
}

impl WaitChannel {
    /// Whether a process that waits on `self` is woken by `event`: a
    /// keyboard event wakes who waits for the keyboard, a child event wakes
    /// who waits for any child or for the child it names.
    pub open spec fn spec_matches_event(self, event: WaitChannel) -> bool {
        match (self, event) {
            (WaitChannel::KeyboardInput, WaitChannel::KeyboardInput) => true,
            (WaitChannel::ChildAny, WaitChannel::Child(_)) => true,
            (WaitChannel::Child(wait_pid), WaitChannel::Child(event_pid)) => wait_pid == event_pid,
            _ => false,
        }
    }

    pub fn matches_event(self, event: WaitChannel) -> (yes: bool)
        ensures
            yes == self.spec_matches_event(event),
    {
        match (self, event) {
            (WaitChannel::KeyboardInput, WaitChannel::KeyboardInput) => true,
            (WaitChannel::ChildAny, WaitChannel::Child(_)) => true,
            (WaitChannel::Child(wait_pid), WaitChannel::Child(event_pid)) => wait_pid == event_pid,
            _ => false,
        }
    }

    pub fn is_child_event(self) -> (yes: bool)
        ensures
            yes <==> self is Child || self is ChildAny,
    {
        match self {
            WaitChannel::Child(_) | WaitChannel::ChildAny => true,
            WaitChannel::KeyboardInput => false,
        }
    }
}

#[derive(Debug, Clone, Copy, PartialEq, Eq, Structural)]
pub enum ProcessError {
    AllocationFailed,
    TooManyProcesses,
    InvalidFileDescriptor,
    ProcessNotFound,
    PathNotFound,
    StackAllocationFailed,
    NotInitialized,
    MemoryRegionNotFound,
    IdleAlreadyExists,
    NoChildren,
    ChildNotFound,
    NoFreeFileDescriptors,
    AddressSpaceAllocationFailed,
    InvalidUserPointer,
    UserMemoryNotPresent,
    InvalidElf,
    UserImageIo,
}

/// The addresses of the pieces of the kernel that processes are started in
/// and return to.
#[derive(Clone, Copy, Debug, PartialEq, Eq, Structural)]
pub struct KernelSymbols {
    /// Where a task lands that returns from its entry: it exits with -1.
    pub process_exit: u64,
    /// Where a preempted task is sent to give up the processor.
    pub preempt_trampoline: u64,
    /// Where a user process starts in the kernel, to drop to user mode.
    pub user_mode_trampoline: u64,
    /// The entry of the idle task.
    pub idle_task: u64,
}

} // verus!
