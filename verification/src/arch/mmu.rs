//! The higher-half direct map.

use vstd::prelude::*;

verus! {

/// Where the kernel's half of every address space begins. Physical address
/// `p` is visible to the kernel at `p + KERNEL_VMA_BASE`.
pub const KERNEL_VMA_BASE: u64 = 0xFFFF_8000_0000_0000;

/// The kernel virtual address through which physical address `phys` is reached.
pub fn phys_to_virt(phys: u64) -> (virt: u64)
    requires
        phys + KERNEL_VMA_BASE <= u64::MAX,
    ensures
        virt == phys + KERNEL_VMA_BASE,
{
    phys + KERNEL_VMA_BASE
}

/// The physical address behind a kernel virtual address of the direct map.
pub fn virt_to_phys(virt: u64) -> (phys: u64)
    requires
        virt >= KERNEL_VMA_BASE,
    ensures
        phys == virt - KERNEL_VMA_BASE,
{
    virt - KERNEL_VMA_BASE
}

} // verus!
