//! Segments and the task state segment.

use vstd::prelude::*;

verus! {

pub const KERNEL_CODE: u64 = 0x00A0_9A00_0000_0000;

pub const KERNEL_DATA: u64 = 0x00A0_9200_0000_0000;

pub const USER_CODE: u64 = 0x00A0_FA00_0000_0000;

pub const USER_DATA: u64 = 0x00A0_F200_0000_0000;

pub const KERNEL_CODE_SELECTOR: u16 = 0x08;

pub const KERNEL_DATA_SELECTOR: u16 = 0x10;

pub const USER_CODE_SELECTOR: u16 = 0x18;

pub const USER_DATA_SELECTOR: u16 = 0x20;

pub const TSS_SELECTOR: u16 = 0x28;

/// Descriptors of the table.
pub const GDT_LEN: usize = 7;

/// Bytes of the task state segment.
pub const TSS_BYTES: u32 = 104;

/// Available 64-bit task state segment, present.
pub const TSS_TYPE: u64 = 0x89;

/// What is loaded into the processor to name the descriptor table.
#[derive(Clone, Copy, Debug, PartialEq, Eq, Structural)]
pub struct Gdtr {
    pub limit: u16,
    pub base: u64,
}

/// The task state segment: the stacks that the processor changes to.
#[derive(Clone, Copy, Debug)]
pub struct TaskStateSegment {
    /// The stacks for the rings 0 to 2. The first is taken when the
    /// processor enters the kernel from user mode.
    pub rsp: [u64; 3],
    pub ist: [u64; 7],
    pub iomap_base: u16,
}

impl TaskStateSegment {
    /// No stacks, and no I/O map: its base lies at the end of the segment.
    pub fn new() -> (tss: TaskStateSegment)
        ensures
            tss.iomap_base == TSS_BYTES,
            forall|i: int| 0 <= i < 3 ==> tss.rsp@[i] == 0,
            forall|i: int| 0 <= i < 7 ==> tss.ist@[i] == 0,
    {
        TaskStateSegment { rsp: [0; 3], ist: [0; 7], iomap_base: TSS_BYTES as u16 }
    }
}

/// The descriptor table: the null descriptor, code and data of the kernel,
/// code and data of the user, and the two halves of the descriptor of the
/// task state segment.
pub open spec fn spec_gdt(tss_base: u64) -> Seq<u64> {
    seq![
        0u64,
        KERNEL_CODE,
        KERNEL_DATA,
        USER_CODE,
        USER_DATA,
        spec_tss_descriptor(tss_base, (TSS_BYTES - 1) as u32).0,
        spec_tss_descriptor(tss_base, (TSS_BYTES - 1) as u32).1,
    ]
}

/// The two halves of the descriptor of a task state segment at `base` with
/// the limit `limit`: the low half holds the limit, the low 32 bits of the
/// base and the type; the high half holds the high 32 bits of the base.
pub open spec fn spec_tss_descriptor(base: u64, limit: u32) -> (u64, u64) {
    (
        ((limit & 0xFFFF) as u64) | ((base & 0xFFFF) << 16) | (((base >> 16) & 0xFF) << 32) | (TSS_TYPE
            << 40) | ((((limit >> 16) & 0xF) as u64) << 48) | (((base >> 24) & 0xFF) << 56),
        (base >> 32) & 0xFFFF_FFFF,
    )
}

/// Makes the descriptor of the task state segment at `base`.
pub fn encode_tss_descriptor(base: u64, limit: u32) -> (halves: (u64, u64))
    ensures
        halves == spec_tss_descriptor(base, limit),
{
    let base_low = base & 0xFFFF;
    let base_mid = (base >> 16) & 0xFF;
    let base_high = (base >> 24) & 0xFF;
    let base_upper = (base >> 32) & 0xFFFF_FFFF;
    let limit_low = (limit & 0xFFFF) as u64;
    let limit_high = ((limit >> 16) & 0xF) as u64;
    let mut lower = 0u64;
    lower |= limit_low;
    lower |= base_low << 16;
    lower |= base_mid << 32;
    lower |= TSS_TYPE << 40;
    lower |= limit_high << 48;
    lower |= base_high << 56;
    assert(0u64 | limit_low == limit_low) by (bit_vector);
    (lower, base_upper)
}

/// Makes the descriptor table for a task state segment at `tss_base`, and
/// what is loaded to name the table once it lies at `gdt_base`.
pub fn init(tss_base: u64, gdt_base: u64) -> (res: ([u64; 7], Gdtr))
    ensures
        res.0@ == spec_gdt(tss_base),
        res.1 == (Gdtr { limit: (GDT_LEN * 8 - 1) as u16, base: gdt_base }),
{
    let (lower, upper) = encode_tss_descriptor(tss_base, TSS_BYTES - 1);
    let gdt: [u64; 7] = [0, KERNEL_CODE, KERNEL_DATA, USER_CODE, USER_DATA, lower, upper];
    assert(gdt@ =~= spec_gdt(tss_base));
    (gdt, Gdtr { limit: (GDT_LEN * 8 - 1) as u16, base: gdt_base })
}

/// Sets the stack that the processor takes when it enters the kernel from
/// user mode.
pub fn set_kernel_stack(tss: &mut TaskStateSegment, stack_top: u64)
    ensures
        final(tss).rsp@ == old(tss).rsp@.update(0, stack_top),
        final(tss).ist == old(tss).ist,
        final(tss).iomap_base == old(tss).iomap_base,
{
    tss.rsp[0] = stack_top;
}

} // verus!
