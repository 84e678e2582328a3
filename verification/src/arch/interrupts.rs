//! Interrupts: the frame that a stub saves, the descriptor table, the
//! interrupt controller, and the handlers.

use vstd::prelude::*;
use crate::arch::io::{outb, PortWrite};

verus! {

/// What an interrupt stub saves on the stack before it calls its handler,
/// lowest address first.
#[derive(Clone, Copy, Debug, PartialEq, Eq, Structural)]
pub struct InterruptFrame {
    pub ds: u64,
    pub r15: u64,
    pub r14: u64,
    pub r13: u64,
    pub r12: u64,
    pub r11: u64,
    pub r10: u64,
    pub r9: u64,
    pub r8: u64,
    pub rdi: u64,
    pub rsi: u64,
    pub rbp: u64,
    pub rsp: u64,
    pub rbx: u64,
    pub rdx: u64,
    pub rcx: u64,
    pub rax: u64,
    pub int_no: u64,
    pub err_code: u64,
    pub rip: u64,
    pub cs: u64,
    pub rflags: u64,
    pub user_rsp: u64,
    pub user_ss: u64,
}

/// One gate of the interrupt descriptor table.
#[derive(Clone, Copy, Debug, PartialEq, Eq, Structural)]
pub struct IdtEntry {
    pub offset_low: u16,
    pub selector: u16,
    pub ist: u8,
    pub type_attr: u8,
    pub offset_mid: u16,
    pub offset_high: u32,
    pub zero: u32,
}

impl IdtEntry {
    /// The address that the entry jumps to.
    pub open spec fn handler(&self) -> int {
        self.offset_low + 0x1_0000 * self.offset_mid + 0x1_0000_0000 * self.offset_high
    }

    /// A gate that is not present.
    pub fn missing() -> (entry: IdtEntry)
        ensures
            entry == Self::spec_missing(),
    {
        IdtEntry {
            offset_low: 0,
            selector: 0,
            ist: 0,
            type_attr: 0,
            offset_mid: 0,
            offset_high: 0,
            zero: 0,
        }
    }

    pub open spec fn spec_missing() -> IdtEntry {
        IdtEntry {
            offset_low: 0,
            selector: 0,
            ist: 0,
            type_attr: 0,
            offset_mid: 0,
            offset_high: 0,
            zero: 0,
        }
    }

    /// Points the entry to the handler at `addr`.
    pub fn set_handler(&mut self, addr: u64, selector: u16, type_attr: u8, ist: u8)
        ensures
            final(self).handler() == addr,
            final(self).selector == selector,
            final(self).type_attr == type_attr,
            final(self).ist == ist,
            final(self).zero == 0,
    {
        self.offset_low = (addr % 0x1_0000) as u16;
        self.selector = selector;
        self.ist = ist;
        self.type_attr = type_attr;
        self.offset_mid = ((addr / 0x1_0000) % 0x1_0000) as u16;
        self.offset_high = (addr / 0x1_0000_0000) as u32;
        self.zero = 0;
    }
}

/// What is loaded into the processor to name a descriptor table.
#[derive(Clone, Copy, Debug, PartialEq, Eq, Structural)]
pub struct Idtr {
    pub limit: u16,
    pub base: u64,
}

pub const IRQ_PIT: u8 = 0;

pub const IRQ_KEYBOARD: u8 = 1;

/// The line through which the second controller reports to the first.
pub const IRQ_CASCADE: u8 = 2;

pub const IRQ_PRIMARY_IDE: u8 = 14;

/// The vector of the first line of the first controller.
pub const PIC_MASTER_OFFSET: u8 = 0x20;

/// The vector of the first line of the second controller.
pub const PIC_SLAVE_OFFSET: u8 = 0x28;

pub const VECTOR_INVALID_OPCODE: u8 = 6;

pub const VECTOR_DOUBLE_FAULT: u8 = 8;

pub const VECTOR_GENERAL_PROTECTION: u8 = 13;

pub const VECTOR_PAGE_FAULT: u8 = 14;

pub const VECTOR_PIT: u8 = PIC_MASTER_OFFSET + IRQ_PIT;

pub const VECTOR_KEYBOARD: u8 = PIC_MASTER_OFFSET + IRQ_KEYBOARD;

pub const VECTOR_PRIMARY_IDE: u8 = PIC_SLAVE_OFFSET + (IRQ_PRIMARY_IDE - 8);

/// Kept for a software system call.
pub const VECTOR_INT_SYSCALL: u8 = 0x80;

/// Gates of the table.
pub const IDT_ENTRIES: usize = 256;

/// Stubs of the processor's exceptions.
pub const EXCEPTION_STUBS: usize = 32;

/// Stubs of the interrupt lines.
pub const IRQ_STUBS: usize = 16;

/// The selector of the kernel's code segment.
pub const GDT_KERNEL_CODE: u16 = 0x08;

/// Present, for ring 0, a 64-bit interrupt gate.
pub const IDT_TYPE_ATTR: u8 = 0x8E;

/// Bytes of one gate.
pub const IDT_ENTRY_BYTES: usize = 16;

pub const PIC1_CMD: u16 = 0x20;

pub const PIC1_DATA: u16 = 0x21;

pub const PIC2_CMD: u16 = 0xA0;

pub const PIC2_DATA: u16 = 0xA1;

pub const PIC_EOI: u8 = 0x20;

pub const ICW1_INIT: u8 = 0x10;

pub const ICW1_ICW4: u8 = 0x01;

pub const ICW4_8086: u8 = 0x01;

/// The interrupt controllers: which lines are masked.
#[derive(Clone, Copy, Debug, PartialEq, Eq, Structural)]
pub struct Pic {
    pub mask_master: u8,
    pub mask_slave: u8,
}

/// The port writes that move the two controllers to the vectors from
/// `offset1` and `offset2` on, wire them to each other, and put their masks
/// back.
pub open spec fn spec_remap_writes(offset1: u8, offset2: u8, mask1: u8, mask2: u8) -> Seq<PortWrite> {
    seq![
        PortWrite { port: PIC1_CMD, value: ICW1_INIT | ICW1_ICW4 },
        PortWrite { port: PIC2_CMD, value: ICW1_INIT | ICW1_ICW4 },
        PortWrite { port: PIC1_DATA, value: offset1 },
        PortWrite { port: PIC2_DATA, value: offset2 },
        PortWrite { port: PIC1_DATA, value: 0x04 },
        PortWrite { port: PIC2_DATA, value: 0x02 },
        PortWrite { port: PIC1_DATA, value: ICW4_8086 },
        PortWrite { port: PIC2_DATA, value: ICW4_8086 },
        PortWrite { port: PIC1_DATA, value: mask1 },
        PortWrite { port: PIC2_DATA, value: mask2 },
    ]
}

/// The controllers after line `irq` was masked, and the port writes that
/// tell them.
pub open spec fn spec_mask(pic: Pic, irq: u8) -> (Pic, Seq<PortWrite>) {
    if irq < 8 {
        let mask = pic.mask_master | (1u8 << irq);
        (Pic { mask_master: mask, ..pic }, seq![PortWrite { port: PIC1_DATA, value: mask }])
    } else {
        let mask = pic.mask_slave | (1u8 << ((irq - 8) as u8));
        (Pic { mask_slave: mask, ..pic }, seq![PortWrite { port: PIC2_DATA, value: mask }])
    }
}

/// The controllers after line `irq` was unmasked, and the port writes that
/// tell them. A line of the second controller needs the cascade line of the
/// first unmasked too.
pub open spec fn spec_unmask(pic: Pic, irq: u8) -> (Pic, Seq<PortWrite>) {
    if irq < 8 {
        let mask = pic.mask_master & !(1u8 << irq);
        (Pic { mask_master: mask, ..pic }, seq![PortWrite { port: PIC1_DATA, value: mask }])
    } else {
        let slave = pic.mask_slave & !(1u8 << ((irq - 8) as u8));
        let master = pic.mask_master & !(1u8 << 2u8);
        (
            Pic { mask_master: master, mask_slave: slave },
            seq![
                PortWrite { port: PIC2_DATA, value: slave },
                PortWrite { port: PIC1_DATA, value: master },
            ],
        )
    }
}

impl Pic {
    /// The controllers with every line masked.
    pub fn new() -> (pic: Pic)
        ensures
            pic == (Pic { mask_master: 0xFF, mask_slave: 0xFF }),
    {
        Pic { mask_master: 0xFF, mask_slave: 0xFF }
    }

    /// Moves the controllers to the vectors from `offset1` and `offset2` on.
    /// `mask1` and `mask2` are the masks that the controllers hold: they are
    /// kept.
    pub fn remap(&mut self, offset1: u8, offset2: u8, mask1: u8, mask2: u8) -> (writes: Vec<PortWrite>)
        ensures
            *final(self) == (Pic { mask_master: mask1, mask_slave: mask2 }),
            writes@ == spec_remap_writes(offset1, offset2, mask1, mask2),
    {
        let mut writes: Vec<PortWrite> = Vec::new();
        writes.push(outb(PIC1_CMD, ICW1_INIT | ICW1_ICW4));
        writes.push(outb(PIC2_CMD, ICW1_INIT | ICW1_ICW4));
        writes.push(outb(PIC1_DATA, offset1));
        writes.push(outb(PIC2_DATA, offset2));
        writes.push(outb(PIC1_DATA, 0x04));
        writes.push(outb(PIC2_DATA, 0x02));
        writes.push(outb(PIC1_DATA, ICW4_8086));
        writes.push(outb(PIC2_DATA, ICW4_8086));
        self.mask_master = mask1;
        self.mask_slave = mask2;
        writes.push(outb(PIC1_DATA, self.mask_master));
        writes.push(outb(PIC2_DATA, self.mask_slave));
        assert(writes@ =~= spec_remap_writes(offset1, offset2, mask1, mask2));
        writes
    }

    /// Masks line `irq`.
    pub fn mask(&mut self, irq: u8) -> (writes: Vec<PortWrite>)
        requires
            irq < 16,
        ensures
            (*final(self), writes@) == spec_mask(*old(self), irq),
    {
        let mut writes: Vec<PortWrite> = Vec::new();
        if irq < 8 {
            self.mask_master |= 1u8 << irq;
            writes.push(outb(PIC1_DATA, self.mask_master));
        } else {
            let line = irq - 8;
            self.mask_slave |= 1u8 << line;
            writes.push(outb(PIC2_DATA, self.mask_slave));
        }
        assert(writes@ =~= spec_mask(*old(self), irq).1);
        writes
    }

    /// Unmasks line `irq`.
    pub fn unmask(&mut self, irq: u8) -> (writes: Vec<PortWrite>)
        requires
            irq < 16,
        ensures
            (*final(self), writes@) == spec_unmask(*old(self), irq),
    {
        let mut writes: Vec<PortWrite> = Vec::new();
        if irq < 8 {
            self.mask_master &= !(1u8 << irq);
            writes.push(outb(PIC1_DATA, self.mask_master));
        } else {
            let line = irq - 8;
            self.mask_slave &= !(1u8 << line);
            writes.push(outb(PIC2_DATA, self.mask_slave));
            self.mask_master &= !(1u8 << 2u8);
            writes.push(outb(PIC1_DATA, self.mask_master));
        }
        assert(writes@ =~= spec_unmask(*old(self), irq).1);
        writes
    }
}

/// The port writes that end the interrupt of `vector`: the second
/// controller is told first where the interrupt came through it.
pub open spec fn spec_eoi_writes(vector: u8) -> Seq<PortWrite> {
    if vector >= 40 {
        seq![
            PortWrite { port: PIC2_CMD, value: PIC_EOI },
            PortWrite { port: PIC1_CMD, value: PIC_EOI },
        ]
    } else {
        seq![PortWrite { port: PIC1_CMD, value: PIC_EOI }]
    }
}

/// The port writes that end the interrupt of `vector`.
pub fn send_eoi(vector: u8) -> (writes: Vec<PortWrite>)
    ensures
        writes@ == spec_eoi_writes(vector),
{
    let mut writes: Vec<PortWrite> = Vec::new();
    if vector >= 40 {
        writes.push(outb(PIC2_CMD, PIC_EOI));
    }
    writes.push(outb(PIC1_CMD, PIC_EOI));
    assert(writes@ =~= spec_eoi_writes(vector));
    writes
}

/// Unmasks interrupt line `line`.
pub fn enable_irq(pic: &mut Pic, line: u8) -> (writes: Vec<PortWrite>)
    requires
        line < 16,
    ensures
        (*final(pic), writes@) == spec_unmask(*old(pic), line),
{
    pic.unmask(line)
}

/// Masks interrupt line `line`.
pub fn disable_irq(pic: &mut Pic, line: u8) -> (writes: Vec<PortWrite>)
    requires
        line < 16,
    ensures
        (*final(pic), writes@) == spec_mask(*old(pic), line),
{
    pic.mask(line)
}

/// Unmasks the interrupt line behind `vector`. The vectors below the first
/// line's have no line: nothing happens for them.
pub fn enable_vector(pic: &mut Pic, vector: u8) -> (writes: Vec<PortWrite>)
    requires
        vector < PIC_MASTER_OFFSET + 16,
    ensures
        vector < PIC_MASTER_OFFSET ==> *final(pic) == *old(pic) && writes@.len() == 0,
        vector >= PIC_MASTER_OFFSET ==> (*final(pic), writes@) == spec_unmask(
            *old(pic),
            (vector - PIC_MASTER_OFFSET) as u8,
        ),
{
    if vector >= PIC_MASTER_OFFSET {
        enable_irq(pic, vector - PIC_MASTER_OFFSET)
    } else {
        Vec::new()
    }
}

/// Masks the interrupt line behind `vector`.
pub fn disable_vector(pic: &mut Pic, vector: u8) -> (writes: Vec<PortWrite>)
    requires
        vector < PIC_MASTER_OFFSET + 16,
    ensures
        vector < PIC_MASTER_OFFSET ==> *final(pic) == *old(pic) && writes@.len() == 0,
        vector >= PIC_MASTER_OFFSET ==> (*final(pic), writes@) == spec_mask(
            *old(pic),
            (vector - PIC_MASTER_OFFSET) as u8,
        ),
{
    if vector >= PIC_MASTER_OFFSET {
        disable_irq(pic, vector - PIC_MASTER_OFFSET)
    } else {
        Vec::new()
    }
}

/// The handlers that the kernel knows.
#[derive(Clone, Copy, Debug, PartialEq, Eq, Structural)]
pub enum HandlerKind {
    /// Reports the vector and goes on.
    Default,
    PageFault,
    GeneralProtection,
    InvalidOpcode,
    /// Acknowledges the disk by reading its status.
    AtaPrimary,
    Timer,
    Keyboard,
}

/// The descriptor table, what is loaded to name it, and the handler of
/// each vector.
pub struct InterruptTable {
    pub idt: Vec<IdtEntry>,
    pub handlers: Vec<HandlerKind>,
    pub idtr: Idtr,
}

/// The entry of vector `vector` after the table was set up with the stubs at
/// `stubs`: the exceptions and the interrupt lines have gates to their
/// stubs, the other vectors have none.
pub open spec fn spec_gate(stubs: Seq<u64>, vector: int) -> IdtEntry {
    if 0 <= vector < EXCEPTION_STUBS + IRQ_STUBS {
        IdtEntry {
            offset_low: (stubs[vector] % 0x1_0000) as u16,
            selector: GDT_KERNEL_CODE,
            ist: 0,
            type_attr: IDT_TYPE_ATTR,
            offset_mid: ((stubs[vector] / 0x1_0000) % 0x1_0000) as u16,
            offset_high: (stubs[vector] / 0x1_0000_0000) as u32,
            zero: 0,
        }
    } else {
        IdtEntry::spec_missing()
    }
}

/// The handler of vector `vector` after the table was set up.
pub open spec fn spec_initial_handler(vector: int) -> HandlerKind {
    if vector == VECTOR_PAGE_FAULT {
        HandlerKind::PageFault
    } else if vector == VECTOR_GENERAL_PROTECTION {
        HandlerKind::GeneralProtection
    } else if vector == VECTOR_INVALID_OPCODE {
        HandlerKind::InvalidOpcode
    } else if vector == VECTOR_PRIMARY_IDE {
        HandlerKind::AtaPrimary
    } else {
        HandlerKind::Default
    }
}

impl InterruptTable {
    /// The table has its 256 gates and handlers.
    pub open spec fn wf(&self) -> bool {
        self.idt@.len() == IDT_ENTRIES && self.handlers@.len() == IDT_ENTRIES
    }
}

/// Sets the descriptor table up: gates for the 32 exceptions and the 16
/// interrupt lines, each to its stub, and the handlers of the faults that
/// the kernel looks into. `stubs` holds the addresses of the 48 stubs and
/// `base` the address at which the table will lie.
pub fn setup_idt(stubs: &[u64], base: u64) -> (table: InterruptTable)
    requires
        stubs@.len() == EXCEPTION_STUBS + IRQ_STUBS,
    ensures
        table.wf(),
        forall|v: int| 0 <= v < IDT_ENTRIES ==> #[trigger] table.idt@[v] == spec_gate(stubs@, v),
        forall|v: int|
            0 <= v < IDT_ENTRIES ==> #[trigger] table.handlers@[v] == spec_initial_handler(v),
        table.idtr == (Idtr { limit: (IDT_ENTRY_BYTES * IDT_ENTRIES - 1) as u16, base }),
{
    let mut idt: Vec<IdtEntry> = vec![IdtEntry::missing(); IDT_ENTRIES];
    let mut handlers: Vec<HandlerKind> = vec![HandlerKind::Default; IDT_ENTRIES];
    let mut index: usize = 0;
    while index < EXCEPTION_STUBS + IRQ_STUBS
        invariant
            index <= EXCEPTION_STUBS + IRQ_STUBS,
            stubs@.len() == EXCEPTION_STUBS + IRQ_STUBS,
            idt@.len() == IDT_ENTRIES,
            forall|v: int| 0 <= v < index ==> #[trigger] idt@[v] == spec_gate(stubs@, v),
            forall|v: int| index <= v < IDT_ENTRIES ==> #[trigger] idt@[v] == IdtEntry::spec_missing(),
        decreases EXCEPTION_STUBS + IRQ_STUBS - index,
    {
        let mut entry = IdtEntry::missing();
        entry.set_handler(stubs[index], GDT_KERNEL_CODE, IDT_TYPE_ATTR, 0);
        proof {
            lemma_gate_parts(entry, stubs@[index as int]);
        }
        idt[index] = entry;
        index += 1;
    }
    handlers[VECTOR_PAGE_FAULT as usize] = HandlerKind::PageFault;
    handlers[VECTOR_GENERAL_PROTECTION as usize] = HandlerKind::GeneralProtection;
    handlers[VECTOR_INVALID_OPCODE as usize] = HandlerKind::InvalidOpcode;
    handlers[VECTOR_PRIMARY_IDE as usize] = HandlerKind::AtaPrimary;
    InterruptTable {
        idt,
        handlers,
        idtr: Idtr { limit: (IDT_ENTRY_BYTES * IDT_ENTRIES - 1) as u16, base },
    }
}

/// The three parts of a gate's address are fixed by the address.
pub proof fn lemma_gate_parts(entry: IdtEntry, addr: u64)
    requires
        entry.handler() == addr,
    ensures
        entry.offset_low == addr % 0x1_0000,
        entry.offset_mid == (addr / 0x1_0000) % 0x1_0000,
        entry.offset_high == addr / 0x1_0000_0000,
{
}

/// Sets up the descriptor table and moves the interrupt controllers to the
/// vectors 32 to 47. Returns the table and the port writes for the
/// controllers.
pub fn init(pic: &mut Pic, stubs: &[u64], base: u64, mask1: u8, mask2: u8) -> (res: (
    InterruptTable,
    Vec<PortWrite>,
))
    requires
        stubs@.len() == EXCEPTION_STUBS + IRQ_STUBS,
    ensures
        res.0.wf(),
        forall|v: int| 0 <= v < IDT_ENTRIES ==> #[trigger] res.0.idt@[v] == spec_gate(stubs@, v),
        forall|v: int|
            0 <= v < IDT_ENTRIES ==> #[trigger] res.0.handlers@[v] == spec_initial_handler(v),
        res.0.idtr == (Idtr { limit: (IDT_ENTRY_BYTES * IDT_ENTRIES - 1) as u16, base }),
        *final(pic) == (Pic { mask_master: mask1, mask_slave: mask2 }),
        res.1@ == spec_remap_writes(32, 40, mask1, mask2),
{
    let table = setup_idt(stubs, base);
    let writes = pic.remap(32, 40, mask1, mask2);
    (table, writes)
}

/// Makes `handler` the handler of `vector`.
pub fn register_handler(table: &mut InterruptTable, vector: u8, handler: HandlerKind)
    requires
        old(table).wf(),
    ensures
        final(table).wf(),
        final(table).handlers@ == old(table).handlers@.update(vector as int, handler),
        final(table).idt == old(table).idt,
        final(table).idtr == old(table).idtr,
{
    table.handlers[vector as usize] = handler;
}

/// The handler that runs for `frame`.
pub fn dispatch(table: &InterruptTable, frame: &InterruptFrame) -> (handler: HandlerKind)
    requires
        table.wf(),
        frame.int_no < IDT_ENTRIES,
    ensures
        handler == table.handlers@[frame.int_no as int],
{
    table.handlers[frame.int_no as usize]
}

/// What a vector without a handler of its own reports: the vector and the
/// error code.
pub fn default_handler(frame: &InterruptFrame) -> (report: (u64, u64))
    ensures
        report == (frame.int_no, frame.err_code),
{
    (frame.int_no, frame.err_code)
}

/// What a page fault says about itself.
#[derive(Clone, Copy, Debug, PartialEq, Eq, Structural)]
pub struct PageFaultInfo {
    pub address: u64,
    pub error_code: u64,
    pub rip: u64,
    pub cs: u64,
    /// The page was present: the access broke its protection.
    pub present: bool,
    pub write: bool,
    pub user: bool,
    /// A reserved bit was set in a page table.
    pub reserved: bool,
    /// The fault came from fetching an instruction.
    pub instruction: bool,
}

/// Reads the cause of a page fault from the error code of `frame`.
/// `fault_addr` is the address that was accessed.
pub fn page_fault_handler(frame: &InterruptFrame, fault_addr: u64) -> (info: PageFaultInfo)
    ensures
        info == (PageFaultInfo {
            address: fault_addr,
            error_code: frame.err_code,
            rip: frame.rip,
            cs: frame.cs,
            present: frame.err_code & 1 != 0,
            write: frame.err_code & 2 != 0,
            user: frame.err_code & 4 != 0,
            reserved: frame.err_code & 8 != 0,
            instruction: frame.err_code & 16 != 0,
        }),
{
    let err = frame.err_code;
    PageFaultInfo {
        address: fault_addr,
        error_code: err,
        rip: frame.rip,
        cs: frame.cs,
        present: (err & 1) != 0,
        write: (err & 2) != 0,
        user: (err & 4) != 0,
        reserved: (err & 8) != 0,
        instruction: (err & 16) != 0,
    }
}

/// What a fault of a task reports: where the task was.
#[derive(Clone, Copy, Debug, PartialEq, Eq, Structural)]
pub struct FaultReport {
    pub rip: u64,
    pub cs: u64,
    pub rflags: u64,
    pub rsp: u64,
    pub err_code: u64,
}

/// What a general protection fault reports.
pub fn general_protection_handler(frame: &InterruptFrame) -> (report: FaultReport)
    ensures
        report == (FaultReport {
            rip: frame.rip,
            cs: frame.cs,
            rflags: frame.rflags,
            rsp: frame.rsp,
            err_code: frame.err_code,
        }),
{
    FaultReport {
        rip: frame.rip,
        cs: frame.cs,
        rflags: frame.rflags,
        rsp: frame.rsp,
        err_code: frame.err_code,
    }
}

/// What an invalid opcode reports.
pub fn invalid_opcode_handler(frame: &InterruptFrame) -> (report: FaultReport)
    ensures
        report == (FaultReport {
            rip: frame.rip,
            cs: frame.cs,
            rflags: frame.rflags,
            rsp: frame.rsp,
            err_code: frame.err_code,
        }),
{
    FaultReport {
        rip: frame.rip,
        cs: frame.cs,
        rflags: frame.rflags,
        rsp: frame.rsp,
        err_code: frame.err_code,
    }
}

/// The port whose reading acknowledges the interrupt of the primary disk.
pub fn ata_primary_irq() -> (port: u16)
    ensures
        port == 0x1F7,
{
    0x1F7
}

} // verus!
