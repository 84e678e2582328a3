//! Processes: their control blocks, the table that holds them, the
//! scheduler, and the file descriptors and memory that they own.

pub mod api;
pub mod fd;
pub mod files;
pub mod pcb;
pub mod regions;
pub mod sched;
pub mod space;
pub mod table;
pub mod types;
pub mod user;
pub mod usercopy;

pub use pcb::{KernelEnv, Process};
pub use fd::{FileDescriptor, FileIoError, OpenFile, VfsHandle};
pub use types::{
    AddressSpace, AddressSpaceKind, Context, KernelSymbols, MemoryPermissions, MemoryRegionKind, Pid,
    ProcessError, ProcessState, SeekFrom, UserStack, WaitChannel, KERNEL_STACK_SIZE, MAX_FDS,
    SCRATCH_FD, STDERR_FD, STDIN_FD, STDOUT_FD,
};
