//! The address space: an insertion-ordered list of named devices whose
//! address ranges never intersect, with reads and writes routed by address.
use crate::memory::{
    zero_padded, DeviceState, Memory, MemoryError, MemoryReadResult, MemoryType, MemoryWriteResult, RAM, ROM,
};
use vstd::prelude::*;

verus! {

/// Errors reported when registering a device.
///
/// `OutOfBounds` is reserved; registration only ever reports `Overlap`.
#[derive(Debug, Clone, Copy, PartialEq, Eq, Structural)]
pub enum MemoryMapError {
    Overlap,
    OutOfBounds,
}

pub type MemoryMapInsertResult = Result<(), MemoryMapError>;

/// The abstract state of one registered device.
pub struct EntryState {
    pub name: Seq<char>,
    pub device: DeviceState,
}

/// `[o1, o1 + s1)` and `[o2, o2 + s2)` share an address (an empty range shares none).
pub open spec fn ranges_intersect(o1: int, s1: int, o2: int, s2: int) -> bool {
    0 < s1 && 0 < s2 && o1 < o2 + s2 && o2 < o1 + s1
}

/// A device at `offset` of `size` bytes may not be registered beside `d`:
/// its start lies inside `d`, its end lies inside `d`, or the two ranges
/// share an address.
pub open spec fn collides(offset: u32, size: u32, d: DeviceState) -> bool {
    ||| d.contains(offset as int)
    ||| (d.offset < offset + size && offset + size <= d.offset + d.size)
    ||| ranges_intersect(offset as int, size as int, d.offset as int, d.size as int)
}

/// Every device is well formed and no two ranges intersect.
pub open spec fn valid_layout(m: Seq<EntryState>) -> bool {
    &&& forall|i: int| 0 <= i < m.len() ==> (#[trigger] m[i]).device.wf()
    &&& forall|i: int, j: int|
        0 <= i < m.len() && 0 <= j < m.len() && i != j ==> !ranges_intersect(
            (#[trigger] m[i]).device.offset as int,
            m[i].device.size as int,
            (#[trigger] m[j]).device.offset as int,
            m[j].device.size as int,
        )
}

/// A device at `offset` of `size` bytes collides with no registered device.
pub open spec fn fits(m: Seq<EntryState>, offset: u32, size: u32) -> bool {
    forall|i: int| 0 <= i < m.len() ==> !collides(offset, size, #[trigger] m[i].device)
}

/// The zero-filled device that `create` builds: MMIO is backed by RAM.
pub open spec fn fresh_device(kind: MemoryType, size: u32, offset: u32) -> DeviceState {
    DeviceState {
        kind: if kind == MemoryType::ROM {
            MemoryType::ROM
        } else {
            MemoryType::RAM
        },
        offset,
        size,
        bytes: Seq::new(size as nat, |i: int| 0u8),
    }
}

/// The map and the result after registering a fresh device.
pub open spec fn register(
    m: Seq<EntryState>,
    name: Seq<char>,
    kind: MemoryType,
    size: u32,
    offset: u32,
) -> (Seq<EntryState>, MemoryMapInsertResult) {
    if fits(m, offset, size) {
        (m.push(EntryState { name, device: fresh_device(kind, size, offset) }), Ok(()))
    } else {
        (m, Err(MemoryMapError::Overlap))
    }
}

/// Some registered device claims `address`.
pub open spec fn mapped(m: Seq<EntryState>, address: u16) -> bool {
    exists|i: int| 0 <= i < m.len() && (#[trigger] m[i]).device.contains(address as int)
}

/// The index of a device that claims `address` (the only one, in a valid layout).
pub open spec fn owner(m: Seq<EntryState>, address: u16) -> int
    recommends
        mapped(m, address),
{
    choose|i: int| 0 <= i < m.len() && (#[trigger] m[i]).device.contains(address as int)
}

/// What a read of `address` returns through the address space.
pub open spec fn route_read(m: Seq<EntryState>, address: u16) -> MemoryReadResult {
    if mapped(m, address) {
        m[owner(m, address)].device.read(address)
    } else {
        Err(MemoryError::Unmapped)
    }
}

/// The map and the result after a write of `value` at `address` through the address space.
pub open spec fn route_write(m: Seq<EntryState>, address: u16, value: u8) -> (
    Seq<EntryState>,
    MemoryWriteResult,
) {
    if mapped(m, address) {
        let i = owner(m, address);
        (
            m.update(i, EntryState { name: m[i].name, device: m[i].device.write(address, value) }),
            m[i].device.write_result(address, value),
        )
    } else {
        (m, Err(MemoryError::Unmapped))
    }
}

/// In a valid layout, a device that claims `address` is its owner.
pub(crate) proof fn lemma_owner_unique(m: Seq<EntryState>, i: int, address: u16)
    requires
        valid_layout(m),
        0 <= i < m.len(),
        m[i].device.contains(address as int),
    ensures
        mapped(m, address),
        owner(m, address) == i,
{
    let j = owner(m, address);
    if j != i {
        assert(ranges_intersect(
            m[i].device.offset as int,
            m[i].device.size as int,
            m[j].device.offset as int,
            m[j].device.size as int,
        ));
    }
}

/// Registered ranges never intersect.
pub proof fn lemma_registered_ranges_disjoint(m: Seq<EntryState>, i: int, j: int)
    requires
        valid_layout(m),
        0 <= i < m.len(),
        0 <= j < m.len(),
        i != j,
    ensures
        !ranges_intersect(
            m[i].device.offset as int,
            m[i].device.size as int,
            m[j].device.offset as int,
            m[j].device.size as int,
        ),
{
}

/// Registering keeps the layout valid; a range that intersects a registered
/// one is refused with `Overlap` and leaves the map, and so its length, as it was.
pub proof fn lemma_register_rejects_overlap(
    m: Seq<EntryState>,
    name: Seq<char>,
    kind: MemoryType,
    size: u32,
    offset: u32,
    i: int,
)
    requires
        valid_layout(m),
        0 <= i < m.len(),
        ranges_intersect(
            offset as int,
            size as int,
            m[i].device.offset as int,
            m[i].device.size as int,
        ),
    ensures
        valid_layout(register(m, name, kind, size, offset).0),
        register(m, name, kind, size, offset) == (m, Err::<(), MemoryMapError>(
            MemoryMapError::Overlap,
        )),
{
    assert(collides(offset, size, m[i].device));
}

/// Registering any device keeps the layout valid.
pub proof fn lemma_register_keeps_layout(
    m: Seq<EntryState>,
    name: Seq<char>,
    kind: MemoryType,
    size: u32,
    offset: u32,
)
    requires
        valid_layout(m),
    ensures
        valid_layout(register(m, name, kind, size, offset).0),
{
    if fits(m, offset, size) {
        lemma_push_keeps_layout(m, EntryState { name, device: fresh_device(kind, size, offset) });
    }
}

/// Appending a well-formed device that fits keeps the layout valid.
proof fn lemma_push_keeps_layout(m: Seq<EntryState>, e: EntryState)
    requires
        valid_layout(m),
        e.device.wf(),
        fits(m, e.device.offset, e.device.size),
    ensures
        valid_layout(m.push(e)),
{
    let n = m.push(e);
    assert forall|i: int, j: int|
        0 <= i < n.len() && 0 <= j < n.len() && i != j implies !ranges_intersect(
        (#[trigger] n[i]).device.offset as int,
        n[i].device.size as int,
        (#[trigger] n[j]).device.offset as int,
        n[j].device.size as int,
    ) by {
        if i == m.len() {
            assert(!collides(e.device.offset, e.device.size, m[j].device));
        } else if j == m.len() {
            assert(!collides(e.device.offset, e.device.size, m[i].device));
        } else {
            assert(n[i] == m[i] && n[j] == m[j]);
        }
    }
}

/// A read or write at an address that a device claims goes to that device,
/// at that device's own view of the address; at an address that no device
/// claims it gives `Unmapped` and changes nothing.
pub proof fn lemma_dispatch_to_owner(m: Seq<EntryState>, i: int, address: u16, value: u8)
    requires
        valid_layout(m),
        0 <= i < m.len(),
        m[i].device.contains(address as int),
    ensures
        route_read(m, address) == m[i].device.read(address),
        route_write(m, address, value) == (
            m.update(
                i,
                EntryState { name: m[i].name, device: m[i].device.write(address, value) },
            ),
            m[i].device.write_result(address, value),
        ),
{
    lemma_owner_unique(m, i, address);
}

/// At an address that no device claims, reads and writes give `Unmapped`
/// and change nothing.
pub proof fn lemma_unmapped_address(m: Seq<EntryState>, address: u16, value: u8)
    requires
        forall|i: int| 0 <= i < m.len() ==> !(#[trigger] m[i]).device.contains(address as int),
    ensures
        route_read(m, address) == Err::<u8, MemoryError>(MemoryError::Unmapped),
        route_write(m, address, value) == (m, Err::<(), MemoryError>(MemoryError::Unmapped)),
{
}

/// A device held by the address space: the closed set of device kinds.
#[derive(Debug)]
pub enum Device {
    Ram(RAM),
    Rom(ROM),
}

impl View for Device {
    type V = DeviceState;

    open spec fn view(&self) -> DeviceState {
        match self {
            Device::Ram(m) => m@,
            Device::Rom(m) => m@,
        }
    }
}

impl Memory for Device {
    fn read(&self, address: u16) -> (r: MemoryReadResult) {
        match self {
            Device::Ram(m) => m.read(address),
            Device::Rom(m) => m.read(address),
        }
    }

    fn write(&mut self, address: u16, value: u8) -> (r: MemoryWriteResult) {
        match self {
            Device::Ram(m) => m.write(address, value),
            Device::Rom(m) => m.write(address, value),
        }
    }

    fn load(&mut self, data: Vec<u8>) -> (r: MemoryWriteResult) {
        match self {
            Device::Ram(m) => m.load(data),
            Device::Rom(m) => m.load(data),
        }
    }

    fn type_of(&self) -> (r: MemoryType) {
        match self {
            Device::Ram(m) => m.type_of(),
            Device::Rom(m) => m.type_of(),
        }
    }
}

/// The label that names a device kind in the table of devices.
pub open spec fn type_label(kind: MemoryType) -> Seq<char> {
    match kind {
        MemoryType::RAM => seq!['R', 'A', 'M'],
        MemoryType::ROM => seq!['R', 'O', 'M'],
        MemoryType::MMIO => seq!['M', 'M', 'I', 'O'],
    }
}

/// A named device together with the range it occupies.
#[derive(Debug)]
pub struct MemoryMapEntry {
    name: String,
    device: Device,
    size: u32,
    offset: u32,
}

impl View for MemoryMapEntry {
    type V = EntryState;

    closed spec fn view(&self) -> EntryState {
        EntryState { name: self.name@, device: self.device@ }
    }
}

impl MemoryMapEntry {
    /// The device is well formed and the range kept beside it is its own.
    pub closed spec fn wf(&self) -> bool {
        &&& self.device@.wf()
        &&& self.size == self.device@.size
        &&& self.offset == self.device@.offset
    }

    fn new(name: String, device: Device, size: u32, offset: u32) -> (r: MemoryMapEntry)
        requires
            device@.wf(),
            device@.size == size,
            device@.offset == offset,
        ensures
            r.wf(),
            r@ == (EntryState { name: name@, device: device@ }),
    {
        MemoryMapEntry { name, device, size, offset }
    }

    pub fn name(&self) -> (r: &str)
        ensures
            r@ == self@.name,
    {
        self.name.as_str()
    }

    /// The kind of the device, as a label.
    pub fn device_type(&self) -> (r: String)
        ensures
            r@ == type_label(self@.device.kind),
    {
        match self.device.type_of() {
            MemoryType::RAM => {
                proof {
                    reveal_strlit("RAM");
                }
                "RAM".to_owned()
            },
            MemoryType::ROM => {
                proof {
                    reveal_strlit("ROM");
                }
                "ROM".to_owned()
            },
            MemoryType::MMIO => {
                proof {
                    reveal_strlit("MMIO");
                }
                "MMIO".to_owned()
            },
        }
    }

    /// Capacity of the device in bytes.
    pub fn size(&self) -> (r: u32)
        requires
            self.wf(),
        ensures
            r == self@.device.size,
    {
        self.size
    }

    /// First address the device answers to.
    pub fn offset(&self) -> (r: u32)
        requires
            self.wf(),
        ensures
            r == self@.device.offset,
    {
        self.offset
    }

    /// `address` lies in the range of this entry.
    fn claims(&self, address: u16) -> (r: bool)
        requires
            self.wf(),
        ensures
            r == self@.device.contains(address as int),
    {
        let address = address as u32;
        address >= self.offset && address - self.offset < self.size
    }
}

/// The address space: devices in order of registration.
#[derive(Debug)]
pub struct MemoryMap {
    devices: Vec<MemoryMapEntry>,
}

impl View for MemoryMap {
    type V = Seq<EntryState>;

    closed spec fn view(&self) -> Seq<EntryState> {
        self.devices@.map_values(|e: MemoryMapEntry| e@)
    }
}

impl MemoryMap {
    /// Every entry keeps its range beside a well-formed device.
    pub closed spec fn entries_wf(&self) -> bool {
        forall|i: int| 0 <= i < self.devices@.len() ==> (#[trigger] self.devices@[i]).wf()
    }

    /// The entries are consistent and the layout is valid.
    pub open spec fn wf(&self) -> bool {
        &&& self.entries_wf()
        &&& valid_layout(self@)
    }

    pub fn new() -> (r: MemoryMap)
        ensures
            r.wf(),
            r@ == Seq::<EntryState>::empty(),
    {
        let r = MemoryMap { devices: Vec::new() };
        assert(r@ =~= Seq::<EntryState>::empty());
        r
    }

    /// Number of registered devices.
    pub fn count(&self) -> (r: usize)
        ensures
            r == self@.len(),
    {
        self.devices.len()
    }

    /// The entry registered in position `index`.
    pub fn entry(&self, index: usize) -> (r: &MemoryMapEntry)
        requires
            self.wf(),
            index < self@.len(),
        ensures
            r.wf(),
            r@ == self@[index as int],
    {
        &self.devices[index]
    }

    /// Reads `address` from the device that claims it, or gives `Unmapped`.
    pub fn read(&self, address: u16) -> (r: MemoryReadResult)
        requires
            self.wf(),
        ensures
            r == route_read(self@, address),
    {
        let n = self.devices.len();
        for k in 0..n
            invariant
                n == self.devices@.len(),
                self.wf(),
                forall|j: int| 0 <= j < k ==> !(#[trigger] self@[j]).device.contains(address as int),
        {
            if self.devices[k].claims(address) {
                proof {
                    lemma_owner_unique(self@, k as int, address);
                }
                return self.devices[k].device.read(address);
            }
        }
        Err(MemoryError::Unmapped)
    }

    /// Writes `value` at `address` through the device that claims it, or gives `Unmapped`.
    pub fn write(&mut self, address: u16, value: u8) -> (r: MemoryWriteResult)
        requires
            old(self).wf(),
        ensures
            final(self).wf(),
            (final(self)@, r) == route_write(old(self)@, address, value),
    {
        let n = self.devices.len();
        for k in 0..n
            invariant
                n == self.devices@.len(),
                self.wf(),
                *self == *old(self),
                forall|j: int| 0 <= j < k ==> !(#[trigger] self@[j]).device.contains(address as int),
        {
            if self.devices[k].claims(address) {
                proof {
                    lemma_owner_unique(self@, k as int, address);
                }
                let r = self.devices[k].device.write(address, value);
                assert(self@ =~= route_write(old(self)@, address, value).0);
                return r;
            }
        }
        Err(MemoryError::Unmapped)
    }

    /// Appends a device unless its range collides with a registered one.
    fn insert(&mut self, name: String, device: Device, size: u32, offset: u32) -> (r:
        MemoryMapInsertResult)
        requires
            old(self).wf(),
            device@.wf(),
            device@.size == size,
            device@.offset == offset,
        ensures
            final(self).wf(),
            fits(old(self)@, offset, size) ==> r == Ok::<(), MemoryMapError>(()) && final(self)@
                == old(self)@.push(EntryState { name: name@, device: device@ }),
            !fits(old(self)@, offset, size) ==> r == Err::<(), MemoryMapError>(
                MemoryMapError::Overlap,
            ) && final(self)@ == old(self)@,
    {
        let start = offset as u64;
        let end = offset as u64 + size as u64;
        let n = self.devices.len();
        for k in 0..n
            invariant
                n == self.devices@.len(),
                self.wf(),
                start == offset,
                end == offset + size,
                forall|j: int| 0 <= j < k ==> !collides(offset, size, (#[trigger] self@[j]).device),
        {
            let entry_start = self.devices[k].offset as u64;
            let entry_end = entry_start + self.devices[k].size as u64;
            assert(self.devices@[k as int].wf());
            assert(self@[k as int] == self.devices@[k as int]@);
            if start >= entry_start && start < entry_end {
                return Err(MemoryMapError::Overlap);
            }
            if end > entry_start && end <= entry_end {
                return Err(MemoryMapError::Overlap);
            }
            if start < end && entry_start < entry_end && start < entry_end && entry_start < end {
                return Err(MemoryMapError::Overlap);
            }
        }
        let ghost before = self@;
        self.devices.push(MemoryMapEntry::new(name, device, size, offset));
        proof {
            let e = EntryState { name: name@, device: device@ };
            assert(self@ =~= before.push(e));
            lemma_push_keeps_layout(before, e);
        }
        Ok(())
    }

    /// Builds a zero-filled device of the requested kind (MMIO is backed by
    /// RAM) and registers it under `name`.
    pub fn create(&mut self, name: String, memory_type: MemoryType, size: u32, offset: u32) -> (r:
        MemoryMapInsertResult)
        requires
            old(self).wf(),
        ensures
            final(self).wf(),
            (final(self)@, r) == register(old(self)@, name@, memory_type, size, offset),
    {
        let zeros = vec![0u8; size as usize];
        assert(zero_padded(zeros@, size as nat) =~= fresh_device(memory_type, size, offset).bytes);
        let device = match memory_type {
            MemoryType::RAM | MemoryType::MMIO => Device::Ram(RAM::new(zeros, size, offset)),
            MemoryType::ROM => Device::Rom(ROM::new(zeros, size, offset)),
        };
        self.insert(name, device, size, offset)
    }
}

} // verus!
