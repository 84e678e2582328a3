//! Device drivers: what a driver is, and the registry that knows them by name.

use vstd::prelude::*;
use vstd::string::StringSliceAdditionalSpecFns;
use crate::bytes::bytes_equal;
use crate::mem::backing::{spec_grow, Backing, Growth};
use crate::mem::heap::KernelAllocator;

pub mod builtin;
pub mod console;
pub mod keyboard;
pub mod mock;

verus! {

/// What kind of device a driver serves.
#[derive(Debug, Copy, Clone, PartialEq, Eq, Structural)]
pub enum DriverKind {
    Block,
    Char,
}

/// Why a driver refused.
#[derive(Debug, Copy, Clone, PartialEq, Eq, Structural)]
pub enum DriverError {
    RegistryFull,
    InitFailed,
    Unsupported,
    IoError,
}

/// What every driver offers.
pub trait Driver {
    fn name(&self) -> &'static str;

    fn kind(&self) -> DriverKind;

    fn init(&mut self) -> Result<(), DriverError>;

    fn shutdown(&mut self);
}

/// What reading `len` bytes at block `lba` gives, from a device that holds
/// `storage` in blocks of `block_size` bytes. Whole blocks only; the range
/// must lie inside the device.
pub open spec fn spec_read_blocks(storage: Seq<u8>, block_size: usize, lba: u64, len: nat) -> Result<
    Seq<u8>,
    DriverError,
> {
    if block_size == 0 || len % (block_size as nat) != 0 {
        Err(DriverError::Unsupported)
    } else if lba * block_size + len > storage.len() {
        Err(DriverError::IoError)
    } else {
        Ok(storage.subrange(lba * block_size, lba * block_size + len))
    }
}

/// The bytes that a device holds after `data` was written at block `lba`.
pub open spec fn spec_write_blocks(storage: Seq<u8>, block_size: usize, lba: u64, data: Seq<u8>) -> Result<
    Seq<u8>,
    DriverError,
> {
    if block_size == 0 || data.len() % (block_size as nat) != 0 {
        Err(DriverError::Unsupported)
    } else if lba * block_size + data.len() > storage.len() {
        Err(DriverError::IoError)
    } else {
        Ok(
            storage.subrange(0, lba * block_size) + data + storage.subrange(
                lba * block_size + data.len(),
                storage.len() as int,
            ),
        )
    }
}

/// A device that is read and written in blocks.
///
/// A device whose bytes are known (`storage` is `Some`) behaves as a plain
/// store. Of a device behind hardware (`storage` is `None`) nothing is
/// promised but that it stays one.
pub trait BlockDevice: Driver {
    /// The bytes on the device, where they are known. They are not known
    /// unless the device says so.
    open spec fn storage(&self) -> Option<Seq<u8>> {
        None
    }

    /// The bytes of one block: 512, unless the device says otherwise.
    open spec fn spec_block_size(&self) -> usize {
        512
    }

    fn block_size(&self) -> (size: usize)
        ensures
            size == self.spec_block_size(),
    ;

    fn read_blocks(&self, lba: u64, buf: &mut [u8]) -> (res: Result<(), DriverError>)
        ensures
            final(buf)@.len() == old(buf)@.len(),
            self.storage() matches Some(storage) ==> match spec_read_blocks(
                storage,
                self.spec_block_size(),
                lba,
                old(buf)@.len(),
            ) {
                Ok(bytes) => res is Ok && final(buf)@ == bytes,
                Err(e) => res == Err::<(), DriverError>(e) && final(buf)@ == old(buf)@,
            },
    ;

    fn write_blocks(&mut self, lba: u64, buf: &[u8]) -> (res: Result<(), DriverError>)
        ensures
            final(self).spec_block_size() == old(self).spec_block_size(),
            final(self).storage() is Some <==> old(self).storage() is Some,
            old(self).storage() matches Some(storage) ==> match spec_write_blocks(
                storage,
                old(self).spec_block_size(),
                lba,
                buf@,
            ) {
                Ok(after) => res is Ok && final(self).storage() == Some(after),
                Err(e) => res == Err::<(), DriverError>(e) && final(self).storage() == Some(storage),
            },
    ;

    fn flush(&mut self) -> (res: Result<(), DriverError>)
        ensures
            final(self).spec_block_size() == old(self).spec_block_size(),
            final(self).storage() == old(self).storage(),
            old(self).storage() is Some ==> res is Ok,
    ;
}

/// A device that is read and written as a stream of bytes.
pub trait CharDevice: Driver {
    fn read(&mut self, buf: &mut [u8]) -> (res: Result<usize, DriverError>)
        ensures
            final(buf)@.len() == old(buf)@.len(),
            res matches Ok(n) ==> n <= old(buf)@.len(),
    ;

    fn write(&mut self, buf: &[u8]) -> (res: Result<usize, DriverError>)
        ensures
            res matches Ok(n) ==> n <= buf@.len(),
    ;
}

/// The character devices that the kernel is built with.
#[derive(Debug, Copy, Clone, PartialEq, Eq, Structural)]
pub enum CharDeviceId {
    Console,
    Keyboard,
    Null,
    Zero,
}

/// The name under which a built-in character device is registered.
pub fn char_device_name(id: CharDeviceId) -> (name: &'static str)
    ensures
        name@ == spec_char_device_name(id)@,
{
    match id {
        CharDeviceId::Console => "console",
        CharDeviceId::Keyboard => "keyboard",
        CharDeviceId::Null => "null",
        CharDeviceId::Zero => "zero",
    }
}

pub open spec fn spec_char_device_name(id: CharDeviceId) -> &'static str {
    match id {
        CharDeviceId::Console => "console",
        CharDeviceId::Keyboard => "keyboard",
        CharDeviceId::Null => "null",
        CharDeviceId::Zero => "zero",
    }
}

/// One entry of the registry: nothing, a block device known by its name, or
/// one of the character devices.
#[derive(Copy, Clone, Debug)]
pub enum DriverSlot {
    Empty,
    Block(&'static str),
    Char(CharDeviceId),
}

impl DriverSlot {
    pub fn empty() -> (slot: DriverSlot)
        ensures
            slot is Empty,
    {
        DriverSlot::Empty
    }

    pub fn kind(&self) -> (kind: Option<DriverKind>)
        ensures
            kind == self.spec_kind(),
    {
        match self {
            DriverSlot::Empty => None,
            DriverSlot::Block(_) => Some(DriverKind::Block),
            DriverSlot::Char(_) => Some(DriverKind::Char),
        }
    }

    pub open spec fn spec_kind(&self) -> Option<DriverKind> {
        match self {
            DriverSlot::Empty => None,
            DriverSlot::Block(_) => Some(DriverKind::Block),
            DriverSlot::Char(_) => Some(DriverKind::Char),
        }
    }

    /// The name of the device in the slot.
    pub open spec fn spec_name(&self) -> Option<Seq<char>> {
        match self {
            DriverSlot::Empty => None,
            DriverSlot::Block(name) => Some(name@),
            DriverSlot::Char(id) => Some(spec_char_device_name(*id)@),
        }
    }

    pub fn name(&self) -> (name: Option<&'static str>)
        ensures
            match self.spec_name() {
                None => name is None,
                Some(n) => name is Some && name->0@ == n,
            },
    {
        match self {
            DriverSlot::Empty => None,
            DriverSlot::Block(name) => Some(*name),
            DriverSlot::Char(id) => Some(char_device_name(*id)),
        }
    }

    pub fn as_char(&self) -> (id: Option<CharDeviceId>)
        ensures
            id == (match *self {
                DriverSlot::Char(id) => Some(id),
                _ => None,
            }),
    {
        match self {
            DriverSlot::Char(id) => Some(*id),
            _ => None,
        }
    }

    pub fn as_block(&self) -> (name: Option<&'static str>)
        ensures
            name == (match *self {
                DriverSlot::Block(name) => Some(name),
                _ => None,
            }),
    {
        match self {
            DriverSlot::Block(name) => Some(*name),
            _ => None,
        }
    }
}

/// Bytes that one slot of the registry takes in its block of the heap.
pub const SLOT_BYTES: u64 = 24;

/// The devices that were registered, in the order of registration.
pub struct DriverRegistry {
    pub slots: Vec<DriverSlot>,
    pub backing: Backing,
}

impl View for DriverRegistry {
    type V = Seq<DriverSlot>;

    open spec fn view(&self) -> Seq<DriverSlot> {
        self.slots@
    }
}

impl DriverRegistry {
    /// The slots fit in the registry's block.
    pub open spec fn wf(&self) -> bool {
        &&& self.slots@.len() <= self.backing.capacity
        &&& self.backing.wf(SLOT_BYTES)
    }

    pub fn new() -> (registry: DriverRegistry)
        ensures
            registry.wf(),
            registry@.len() == 0,
            registry.backing.capacity == 0,
            registry.backing == (Backing { addr: 0, capacity: 0 }),
    {
        DriverRegistry { slots: Vec::new(), backing: Backing::new() }
    }

    pub fn register_block(&mut self, heap: &mut KernelAllocator, name: &'static str) -> (res: Result<
        (),
        DriverError,
    >)
        requires
            old(self).wf(),
            old(heap).wf(),
        ensures
            final(self).wf(),
            final(heap).wf(),
            final(heap).start == old(heap).start,
            final(heap).size == old(heap).size,
            spec_insert(*old(self), old(heap).list@, DriverSlot::Block(name)) == (
                final(self)@,
                final(self).backing,
                final(heap).list@,
                res,
            ),
    {
        self.insert(heap, DriverSlot::Block(name))
    }

    pub fn register_char(&mut self, heap: &mut KernelAllocator, id: CharDeviceId) -> (res: Result<
        (),
        DriverError,
    >)
        requires
            old(self).wf(),
            old(heap).wf(),
        ensures
            final(self).wf(),
            final(heap).wf(),
            final(heap).start == old(heap).start,
            final(heap).size == old(heap).size,
            spec_insert(*old(self), old(heap).list@, DriverSlot::Char(id)) == (
                final(self)@,
                final(self).backing,
                final(heap).list@,
                res,
            ),
    {
        self.insert(heap, DriverSlot::Char(id))
    }

    /// Appends a slot, after room was made for it.
    pub fn insert(&mut self, heap: &mut KernelAllocator, slot: DriverSlot) -> (res: Result<
        (),
        DriverError,
    >)
        requires
            old(self).wf(),
            old(heap).wf(),
        ensures
            final(self).wf(),
            final(heap).wf(),
            final(heap).start == old(heap).start,
            final(heap).size == old(heap).size,
            spec_insert(*old(self), old(heap).list@, slot) == (
                final(self)@,
                final(self).backing,
                final(heap).list@,
                res,
            ),
    {
        match self.ensure_capacity(heap, 1) {
            Ok(()) => {},
            Err(e) => { return Err(e); },
        }
        self.slots.push(slot);
        Ok(())
    }

    /// Makes room for `additional` more slots, in a larger block of the heap
    /// where the present one is full. The registry is full where the heap
    /// cannot give such a block.
    pub fn ensure_capacity(&mut self, heap: &mut KernelAllocator, additional: usize) -> (res: Result<
        (),
        DriverError,
    >)
        requires
            old(self).wf(),
            old(heap).wf(),
        ensures
            final(self).wf(),
            final(heap).wf(),
            final(heap).start == old(heap).start,
            final(heap).size == old(heap).size,
            final(self)@ == old(self)@,
            old(self)@.len() + additional > usize::MAX ==> res == Err::<(), DriverError>(
                DriverError::RegistryFull,
            ) && final(self).backing == old(self).backing && final(heap).list@ == old(heap).list@,
            old(self)@.len() + additional <= usize::MAX ==> ({
                let (list, backing, growth) = spec_grow(
                    old(heap).list@,
                    old(self).backing,
                    (old(self)@.len() + additional) as usize,
                    SLOT_BYTES,
                );
                &&& final(heap).list@ == list
                &&& final(self).backing == backing
                &&& res == (if growth == Growth::Enough || growth == Growth::Grown {
                    Ok::<(), DriverError>(())
                } else {
                    Err::<(), DriverError>(DriverError::RegistryFull)
                })
            }),
            res is Ok ==> final(self)@.len() + additional <= final(self).backing.capacity,
    {
        let required = match self.slots.len().checked_add(additional) {
            Some(r) => r,
            None => { return Err(DriverError::RegistryFull); },
        };
        match self.backing.grow(heap, required, SLOT_BYTES) {
            Growth::Enough | Growth::Grown => Ok(()),
            _ => Err(DriverError::RegistryFull),
        }
    }

    /// The slots of the registry, in order.
    pub fn iter(&self) -> (slots: &Vec<DriverSlot>)
        ensures
            slots@ == self@,
    {
        &self.slots
    }

    /// Gives the registry's block back to the heap. The registry is empty afterwards.
    pub fn release(&mut self, heap: &mut KernelAllocator)
        requires
            old(self).wf(),
            old(heap).wf(),
        ensures
            final(self).wf(),
            final(heap).wf(),
            final(self)@.len() == 0,
            final(self).backing.capacity == 0,
    {
        self.slots.clear();
        self.backing.release(heap, SLOT_BYTES);
    }
}

/// What making room for one slot more does to the block of a registry
/// with `len` slots and to the heap's free list, and whether room was made.
pub open spec fn spec_make_room(len: nat, backing: Backing, list: Seq<crate::mem::heap::ListNode>) -> (
    Backing,
    Seq<crate::mem::heap::ListNode>,
    bool,
) {
    if len + 1 > usize::MAX {
        (backing, list, false)
    } else {
        let (after, grown, growth) = spec_grow(list, backing, (len + 1) as usize, SLOT_BYTES);
        (grown, after, growth == Growth::Enough || growth == Growth::Grown)
    }
}

/// What appending `slot` does to a registry that holds `slots` in the block
/// `backing`, and to the heap's free list: room is made for one slot more,
/// and the slot is appended. Without room the registry is full.
pub open spec fn spec_insert_slot(
    slots: Seq<DriverSlot>,
    backing: Backing,
    list: Seq<crate::mem::heap::ListNode>,
    slot: DriverSlot,
) -> (Seq<DriverSlot>, Backing, Seq<crate::mem::heap::ListNode>, Result<(), DriverError>) {
    let (grown, after, made) = spec_make_room(slots.len(), backing, list);
    if made {
        (slots.push(slot), grown, after, Ok(()))
    } else {
        (slots, grown, after, Err(DriverError::RegistryFull))
    }
}

/// What appending `slot` does to the registry and to the heap's free list.
pub open spec fn spec_insert(registry: DriverRegistry, list: Seq<crate::mem::heap::ListNode>, slot: DriverSlot) -> (
    Seq<DriverSlot>,
    Backing,
    Seq<crate::mem::heap::ListNode>,
    Result<(), DriverError>,
) {
    spec_insert_slot(registry@, registry.backing, list, slot)
}

/// What registering the devices that the kernel is built with does: the
/// console, where it starts, then the null device, then the zero device,
/// each appended in its turn. Returns the registry, its block, the heap's
/// free list, and how each of the three fared.
pub open spec fn spec_register_builtin(
    slots: Seq<DriverSlot>,
    backing: Backing,
    list: Seq<crate::mem::heap::ListNode>,
    console_starts: bool,
) -> (
    Seq<DriverSlot>,
    Backing,
    Seq<crate::mem::heap::ListNode>,
    (Result<(), DriverError>, Result<(), DriverError>, Result<(), DriverError>),
) {
    let first = if console_starts {
        spec_insert_slot(slots, backing, list, DriverSlot::Char(CharDeviceId::Console))
    } else {
        (slots, backing, list, Err(DriverError::InitFailed))
    };
    let second = spec_insert_slot(first.0, first.1, first.2, DriverSlot::Char(CharDeviceId::Null));
    let third = spec_insert_slot(second.0, second.1, second.2, DriverSlot::Char(CharDeviceId::Zero));
    (third.0, third.1, third.2, (first.3, second.3, third.3))
}

/// What entering a block device under `name` does to the registry and to
/// the heap's free list.
pub open spec fn spec_insert_block(
    registry: DriverRegistry,
    list: Seq<crate::mem::heap::ListNode>,
    name: &'static str,
) -> (Seq<DriverSlot>, Backing, Seq<crate::mem::heap::ListNode>, Result<(), DriverError>) {
    spec_insert(registry, list, DriverSlot::Block(name))
}

/// The registry is ready as soon as it exists.
pub fn init() -> (registry: DriverRegistry)
    ensures
        registry.wf(),
        registry@.len() == 0,
{
    DriverRegistry::new()
}

/// Starts a block device and, where it starts, enters it in the registry.
/// A device that does not start is left out.
pub fn register_block<D: BlockDevice>(
    registry: &mut DriverRegistry,
    heap: &mut KernelAllocator,
    device: &mut D,
) -> (res: Result<(), DriverError>)
    requires
        old(registry).wf(),
        old(heap).wf(),
    ensures
        final(registry).wf(),
        final(heap).wf(),
        final(heap).start == old(heap).start,
        final(heap).size == old(heap).size,
        res is Ok ==> final(registry)@.len() == old(registry)@.len() + 1 && final(registry)@.last()
            is Block && final(registry)@.drop_last() == old(registry)@,
        res is Err ==> final(registry)@ == old(registry)@,
        res == Err::<(), DriverError>(DriverError::InitFailed) ==> final(registry).backing == old(registry).backing && final(heap).list@ == old(heap).list@,
        res != Err::<(), DriverError>(DriverError::InitFailed) ==> exists|name: &'static str| #[trigger]
            spec_insert_block(*old(registry), old(heap).list@, name) == (
                final(registry)@,
                final(registry).backing,
                final(heap).list@,
                res,
            ),
{
    match device.init() {
        Ok(()) => {},
        Err(_) => { return Err(DriverError::InitFailed); },
    }
    let name = device.name();
    let res = registry.register_block(heap, name);
    proof {
        if res is Ok {
            assert(final(registry)@.drop_last() =~= old(registry)@);
        }
        assert(spec_insert_block(*old(registry), old(heap).list@, name) == (
            registry@,
            registry.backing,
            heap.list@,
            res,
        ));
    }
    res
}

/// Starts a character device and, where it starts, enters it in the
/// registry under `id`. A device that does not start is left out.
pub fn register_char<C: CharDevice>(
    registry: &mut DriverRegistry,
    heap: &mut KernelAllocator,
    device: &mut C,
    id: CharDeviceId,
) -> (res: Result<(), DriverError>)
    requires
        old(registry).wf(),
        old(heap).wf(),
    ensures
        final(registry).wf(),
        final(heap).wf(),
        final(heap).start == old(heap).start,
        final(heap).size == old(heap).size,
        res is Ok ==> final(registry)@ == old(registry)@.push(DriverSlot::Char(id)),
        res is Err ==> final(registry)@ == old(registry)@,
        res == Err::<(), DriverError>(DriverError::InitFailed) ==> final(registry).backing == old(registry).backing && final(heap).list@ == old(heap).list@,
        res != Err::<(), DriverError>(DriverError::InitFailed) ==> spec_insert(
            *old(registry),
            old(heap).list@,
            DriverSlot::Char(id),
        ) == (final(registry)@, final(registry).backing, final(heap).list@, res),
{
    match device.init() {
        Ok(()) => {},
        Err(_) => { return Err(DriverError::InitFailed); },
    }
    registry.register_char(heap, id)
}

/// Starts and registers the devices that the kernel is built with.
pub fn register_builtin(
    registry: &mut DriverRegistry,
    heap: &mut KernelAllocator,
    console: &mut crate::drivers::console::Console,
) -> (report: (Result<(), DriverError>, Result<(), DriverError>, Result<(), DriverError>))
    requires
        old(registry).wf(),
        old(heap).wf(),
    ensures
        final(registry).wf(),
        final(heap).wf(),
        final(heap).start == old(heap).start,
        final(heap).size == old(heap).size,
        old(console).wf() ==> final(console).wf() && final(console).state == (
            crate::drivers::console::ConsoleState { row: 0, col: 0, ..old(console).state }),
        (final(registry)@, final(registry).backing, final(heap).list@, report)
            == spec_register_builtin(
            old(registry)@,
            old(registry).backing,
            old(heap).list@,
            old(console).spec_starts(),
        ),
        final(registry)@.len() == old(registry)@.len() + (if report.0 is Ok { 1int } else { 0 }) + (
        if report.1 is Ok { 1int } else { 0 }) + (if report.2 is Ok { 1int } else { 0 }),
        final(registry)@.subrange(0, old(registry)@.len() as int) == old(registry)@,
{
    crate::drivers::builtin::register(registry, heap, console)
}

/// The names and kinds of the drivers in `slots`, in order. An empty slot
/// has neither.
pub open spec fn spec_listing(slots: Seq<DriverSlot>) -> Seq<(Seq<char>, DriverKind)>
    decreases slots.len(),
{
    if slots.len() == 0 {
        Seq::empty()
    } else {
        let before = spec_listing(slots.drop_last());
        match (slots.last().spec_name(), slots.last().spec_kind()) {
            (Some(name), Some(kind)) => before.push((name, kind)),
            _ => before,
        }
    }
}

/// A listing as names and kinds.
pub open spec fn listing_view(listing: Seq<(&'static str, DriverKind)>) -> Seq<(Seq<char>, DriverKind)> {
    Seq::new(listing.len(), |i: int| (listing[i].0@, listing[i].1))
}

/// The name and kind of every registered driver, in the order of
/// registration.
pub fn list_drivers(registry: &DriverRegistry) -> (listing: Vec<(&'static str, DriverKind)>)
    ensures
        listing_view(listing@) == spec_listing(registry@),
{
    let mut listing: Vec<(&'static str, DriverKind)> = Vec::new();
    let mut i: usize = 0;
    assert(listing_view(listing@) =~= spec_listing(registry@.subrange(0, 0)));
    while i < registry.slots.len()
        invariant
            i <= registry@.len(),
            listing_view(listing@) == spec_listing(registry@.subrange(0, i as int)),
        decreases registry@.len() - i,
    {
        assert(registry@.subrange(0, i + 1).drop_last() =~= registry@.subrange(0, i as int));
        let ghost before = listing@;
        let slot = &registry.slots[i];
        match (slot.name(), slot.kind()) {
            (Some(name), Some(kind)) => {
                listing.push((name, kind));
                assert(listing_view(listing@) =~= listing_view(before).push((name@, kind)));
            },
            _ => {},
        }
        i += 1;
    }
    assert(registry@.subrange(0, registry@.len() as int) =~= registry@);
    listing
}

/// The character devices that are registered, in order.
pub open spec fn spec_char_devices(slots: Seq<DriverSlot>) -> Seq<CharDeviceId>
    decreases slots.len(),
{
    if slots.len() == 0 {
        Seq::empty()
    } else {
        let before = spec_char_devices(slots.drop_last());
        match slots.last() {
            DriverSlot::Char(id) => before.push(id),
            _ => before,
        }
    }
}

/// The names of the block devices that are registered, in order.
pub open spec fn spec_block_devices(slots: Seq<DriverSlot>) -> Seq<&'static str>
    decreases slots.len(),
{
    if slots.len() == 0 {
        Seq::empty()
    } else {
        let before = spec_block_devices(slots.drop_last());
        match slots.last() {
            DriverSlot::Block(name) => before.push(name),
            _ => before,
        }
    }
}

/// The registered character devices, in the order of registration.
pub fn for_each_char_device(registry: &DriverRegistry) -> (devices: Vec<CharDeviceId>)
    ensures
        devices@ == spec_char_devices(registry@),
{
    let mut devices: Vec<CharDeviceId> = Vec::new();
    let mut i: usize = 0;
    while i < registry.slots.len()
        invariant
            i <= registry@.len(),
            devices@ == spec_char_devices(registry@.subrange(0, i as int)),
        decreases registry@.len() - i,
    {
        assert(registry@.subrange(0, i + 1).drop_last() =~= registry@.subrange(0, i as int));
        match registry.slots[i].as_char() {
            Some(id) => {
                devices.push(id);
            },
            None => {},
        }
        i += 1;
    }
    assert(registry@.subrange(0, registry@.len() as int) =~= registry@);
    devices
}

/// The names of the registered block devices, in the order of registration.
pub fn for_each_block_device(registry: &DriverRegistry) -> (devices: Vec<&'static str>)
    ensures
        devices@ == spec_block_devices(registry@),
{
    let mut devices: Vec<&'static str> = Vec::new();
    let mut i: usize = 0;
    while i < registry.slots.len()
        invariant
            i <= registry@.len(),
            devices@ == spec_block_devices(registry@.subrange(0, i as int)),
        decreases registry@.len() - i,
    {
        assert(registry@.subrange(0, i + 1).drop_last() =~= registry@.subrange(0, i as int));
        match registry.slots[i].as_block() {
            Some(name) => {
                devices.push(name);
            },
            None => {},
        }
        i += 1;
    }
    assert(registry@.subrange(0, registry@.len() as int) =~= registry@);
    devices
}

/// The slot at `index` holds a block device of the given name.
pub open spec fn is_block_named(slot: DriverSlot, name: Seq<u8>) -> bool {
    slot matches DriverSlot::Block(n) && n.spec_bytes() == name
}

/// Looks a block device up by its name: the first one registered under it.
pub fn block_device_by_name(registry: &DriverRegistry, name: &str) -> (found: Option<&'static str>)
    ensures
        found matches Some(n) ==> n.spec_bytes() == name.spec_bytes() && exists|i: int|
            0 <= i < registry@.len() && registry@[i] == DriverSlot::Block(n),
        found is None ==> forall|i: int|
            0 <= i < registry@.len() ==> !is_block_named(#[trigger] registry@[i], name.spec_bytes()),
{
    let mut i: usize = 0;
    while i < registry.slots.len()
        invariant
            i <= registry@.len(),
            forall|j: int| 0 <= j < i ==> !is_block_named(#[trigger] registry@[j], name.spec_bytes()),
        decreases registry@.len() - i,
    {
        match registry.slots[i].as_block() {
            Some(dev) => {
                if bytes_equal(dev.as_bytes(), name.as_bytes()) {
                    return Some(dev);
                }
            },
            None => {},
        }
        i += 1;
    }
    None
}

/// Looks a character device up by its name.
pub fn char_device_by_name(registry: &DriverRegistry, name: &str) -> (found: Option<CharDeviceId>)
    ensures
        found matches Some(id) ==> spec_char_device_name(id).spec_bytes() == name.spec_bytes()
            && exists|i: int| 0 <= i < registry@.len() && registry@[i] == DriverSlot::Char(id),
        found is None ==> forall|i: int|
            0 <= i < registry@.len() ==> !((#[trigger] registry@[i]) matches DriverSlot::Char(id)
                && spec_char_device_name(id).spec_bytes() == name.spec_bytes()),
{
    let mut i: usize = 0;
    while i < registry.slots.len()
        invariant
            i <= registry@.len(),
            forall|j: int|
                0 <= j < i ==> !((#[trigger] registry@[j]) matches DriverSlot::Char(id)
                    && spec_char_device_name(id).spec_bytes() == name.spec_bytes()),
        decreases registry@.len() - i,
    {
        match registry.slots[i].as_char() {
            Some(id) => {
                if bytes_equal(char_device_name(id).as_bytes(), name.as_bytes()) {
                    return Some(id);
                }
            },
            None => {},
        }
        i += 1;
    }
    None
}

} // verus!
