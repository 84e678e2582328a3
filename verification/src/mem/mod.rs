//! Memory management: address arithmetic, physical frames and the kernel heap.

pub mod paging;
pub mod backing;
pub mod heap;
pub mod phys;
