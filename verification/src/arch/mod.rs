//! The x86_64 side of the kernel: paging, descriptors, interrupts, devices.

pub mod ata;
pub mod console;
pub mod gdt;
pub mod interrupts;
pub mod io;
pub mod keyboard;
pub mod mmu;
pub mod paging;
pub mod pit;
pub mod qemu;
pub mod serial;
pub mod timer;
