//! A model of a small preemptive x86_64 kernel.
//!
//! Every rule of the kernel (frame and heap allocation, page tables, the
//! process table and scheduler, file descriptors, the system-call surface,
//! the device drivers' decisions) is executable code on plain values with a
//! contract. Whatever touches the machine itself (port I/O, control
//! registers, assembly stubs) stays outside and is handed the values that
//! this library computes.

pub mod arch;
pub mod bytes;
pub mod devices;
pub mod drivers;
pub mod fs;
pub mod harness;
pub mod kernel;
pub mod klog;
pub mod mem;
pub mod process;
pub mod syscall;
pub mod user;
pub mod utf8;
pub mod vfs;

