//! Memory devices: byte-addressed storage placed at a base offset of the
//! 16-bit address space, with a uniform read / write / load interface.
use vstd::prelude::*;

verus! {

/// What kind of device answers for a range of addresses.
#[derive(Debug, Clone, Copy, PartialEq, Eq, Structural)]
pub enum MemoryType {
    RAM,
    ROM,
    MMIO,
}

/// Errors reported by device accesses.
///
/// `Overlap`, `ReadOnly` and `WriteOnly` are reserved for devices with
/// asymmetric ports; no device here produces them.
#[derive(Debug, Clone, Copy, PartialEq, Eq, Structural)]
pub enum MemoryError {
    OutOfBounds,
    Overlap,
    ReadOnly,
    WriteOnly,
    Unmapped,
}

pub type MemoryReadResult = Result<u8, MemoryError>;

pub type MemoryWriteResult = Result<(), MemoryError>;

/// `image` followed by zeros, `size` bytes in all.
pub open spec fn zero_padded(image: Seq<u8>, size: nat) -> Seq<u8> {
    Seq::new(size, |i: int| if i < image.len() { image[i] } else { 0u8 })
}

/// The abstract state of a device: its kind, the first address it answers
/// to, its capacity and the bytes it holds.
pub struct DeviceState {
    pub kind: MemoryType,
    pub offset: u32,
    pub size: u32,
    pub bytes: Seq<u8>,
}

impl DeviceState {
    /// The storage holds exactly `size` bytes.
    pub open spec fn wf(self) -> bool {
        self.bytes.len() == self.size
    }

    /// `address` lies in `[offset, offset + size)`.
    pub open spec fn contains(self, address: int) -> bool {
        self.offset <= address < self.offset + self.size
    }

    /// Writes to this device are discarded.
    pub open spec fn ignores_writes(self) -> bool {
        self.kind == MemoryType::ROM
    }

    /// The result of `read(address)`.
    pub open spec fn read(self, address: u16) -> MemoryReadResult {
        if self.contains(address as int) {
            Ok(self.bytes[address - self.offset])
        } else {
            Err(MemoryError::OutOfBounds)
        }
    }

    /// The same device holding `bytes`.
    pub open spec fn with_bytes(self, bytes: Seq<u8>) -> DeviceState {
        DeviceState { kind: self.kind, offset: self.offset, size: self.size, bytes }
    }

    /// The state after `write(address, value)`.
    pub open spec fn write(self, address: u16, value: u8) -> DeviceState {
        if !self.ignores_writes() && self.contains(address as int) {
            self.with_bytes(self.bytes.update(address - self.offset, value))
        } else {
            self
        }
    }

    /// The result of `write(address, value)`.
    pub open spec fn write_result(self, address: u16, value: u8) -> MemoryWriteResult {
        if self.ignores_writes() || self.contains(address as int) {
            Ok(())
        } else {
            Err(MemoryError::OutOfBounds)
        }
    }

    /// The state after `load(image)`.
    pub open spec fn load(self, image: Seq<u8>) -> DeviceState {
        if image.len() <= self.size {
            self.with_bytes(zero_padded(image, self.size as nat))
        } else {
            self
        }
    }

    /// The result of `load(image)`.
    pub open spec fn load_result(self, image: Seq<u8>) -> MemoryWriteResult {
        if image.len() <= self.size {
            Ok(())
        } else {
            Err(MemoryError::OutOfBounds)
        }
    }
}

/// A read succeeds exactly on the addresses in `[offset, offset + size)`;
/// every other address gives `OutOfBounds`.
pub proof fn lemma_read_within_bounds(d: DeviceState, address: u16)
    requires
        d.wf(),
    ensures
        d.read(address) is Ok <==> d.offset <= address < d.offset + d.size,
        !d.contains(address as int) ==> d.read(address) == Err::<u8, MemoryError>(
            MemoryError::OutOfBounds,
        ),
{
}

/// On RAM, reading an in-range address right after writing `value` there
/// gives `value` back.
pub proof fn lemma_ram_write_then_read(d: DeviceState, address: u16, value: u8)
    requires
        d.wf(),
        d.kind == MemoryType::RAM,
        d.contains(address as int),
    ensures
        d.write_result(address, value) == Ok::<(), MemoryError>(()),
        d.write(address, value).wf(),
        d.write(address, value).read(address) == Ok::<u8, MemoryError>(value),
{
}

/// On ROM, every write succeeds and changes nothing that any read sees.
pub proof fn lemma_rom_ignores_writes(d: DeviceState, address: u16, value: u8, other: u16)
    requires
        d.kind == MemoryType::ROM,
    ensures
        d.write_result(address, value) == Ok::<(), MemoryError>(()),
        d.write(address, value) == d,
        d.write(address, value).read(other) == d.read(other),
{
}

/// After loading an image that fits, every address past the image and
/// inside the device reads as zero.
pub proof fn lemma_load_zero_fills(d: DeviceState, image: Seq<u8>, i: int)
    requires
        d.wf(),
        image.len() <= i < d.size,
        d.offset + i <= u16::MAX,
    ensures
        d.load_result(image) == Ok::<(), MemoryError>(()),
        d.load(image).read((d.offset + i) as u16) == Ok::<u8, MemoryError>(0),
{
}

/// Loading an image longer than the device is refused with `OutOfBounds`
/// and leaves the storage as it was.
pub proof fn lemma_load_oversized_rejected(d: DeviceState, image: Seq<u8>)
    requires
        image.len() > d.size,
    ensures
        d.load_result(image) == Err::<(), MemoryError>(MemoryError::OutOfBounds),
        d.load(image) == d,
{
}

/// A byte-addressed device. Its abstract state is its view, which is always
/// well formed.
pub trait Memory: View<V = DeviceState> {
    /// The byte at `address`, or `OutOfBounds` outside the device.
    fn read(&self, address: u16) -> (r: MemoryReadResult)
        ensures
            self@.wf(),
            r == self@.read(address),
    ;

    /// Stores `value` at `address`; ROM accepts and discards every write.
    fn write(&mut self, address: u16, value: u8) -> (r: MemoryWriteResult)
        ensures
            old(self)@.wf(),
            final(self)@ == old(self)@.write(address, value),
            r == old(self)@.write_result(address, value),
    ;

    /// Replaces the whole storage by `data` padded with zeros; an image
    /// longer than the device is refused with `OutOfBounds`.
    fn load(&mut self, data: Vec<u8>) -> (r: MemoryWriteResult)
        ensures
            old(self)@.wf(),
            final(self)@ == old(self)@.load(data@),
            r == old(self)@.load_result(data@),
    ;

    /// The kind of the device.
    fn type_of(&self) -> (r: MemoryType)
        ensures
            self@.wf(),
            r == self@.kind,
    ;
}

/// Replaces the contents of `storage` by `image` padded with zeros to `size` bytes.
fn fill_storage(storage: &mut Vec<u8>, image: &Vec<u8>, size: u32)
    requires
        image@.len() <= size,
    ensures
        final(storage)@ == zero_padded(image@, size as nat),
{
    storage.clear();
    storage.resize(size as usize, 0);
    let n = image.len();
    for i in 0..n
        invariant
            n == image@.len(),
            n <= size,
            storage@.len() == size,
            forall|j: int| 0 <= j < i ==> storage@[j] == image@[j],
            forall|j: int| n <= j < size ==> storage@[j] == 0u8,
    {
        storage.set(i, image[i]);
    }
    assert(storage@ =~= zero_padded(image@, size as nat));
}

/// Random-access memory.
#[derive(Debug)]
pub struct RAM {
    data: Vec<u8>,
    size: u32,
    offset: u32,
}

impl View for RAM {
    type V = DeviceState;

    closed spec fn view(&self) -> DeviceState {
        DeviceState { kind: MemoryType::RAM, offset: self.offset, size: self.size, bytes: self.data@ }
    }
}

impl RAM {
    /// The storage always holds exactly `size` bytes.
    #[verifier::type_invariant]
    spec fn inv(&self) -> bool {
        self.data@.len() == self.size
    }

    /// Moves the device out, leaving an empty one in its place.
    fn take(&mut self) -> (r: RAM)
        ensures
            r == *old(self),
    {
        let mut r = RAM { data: Vec::new(), size: 0, offset: 0 };
        std::mem::swap(self, &mut r);
        r
    }

    /// Every RAM is of kind `RAM`.
    pub proof fn lemma_kind(&self)
        ensures
            self@.kind == MemoryType::RAM,
    {
    }

    /// A RAM of `size` bytes at `offset`, holding `data` followed by zeros.
    pub fn new(data: Vec<u8>, size: u32, offset: u32) -> (r: RAM)
        requires
            data@.len() <= size,
        ensures
            r@ == (DeviceState {
                kind: MemoryType::RAM,
                offset,
                size,
                bytes: zero_padded(data@, size as nat),
            }),
    {
        let mut storage: Vec<u8> = Vec::new();
        fill_storage(&mut storage, &data, size);
        RAM { data: storage, size, offset }
    }

    /// As `new`, but an image longer than `size` is refused with `OutOfBounds`.
    pub fn from_image(data: Vec<u8>, size: u32, offset: u32) -> (r: Result<RAM, MemoryError>)
        ensures
            data@.len() > size ==> r == Err::<RAM, MemoryError>(MemoryError::OutOfBounds),
            data@.len() <= size ==> (r matches Ok(ram) && ram@ == (DeviceState {
                kind: MemoryType::RAM,
                offset,
                size,
                bytes: zero_padded(data@, size as nat),
            })),
    {
        if data.len() as u64 > size as u64 {
            Err(MemoryError::OutOfBounds)
        } else {
            Ok(RAM::new(data, size, offset))
        }
    }

    /// Capacity in bytes.
    pub fn size(&self) -> (r: u32)
        ensures
            r == self@.size,
    {
        self.size
    }

    /// First address the device answers to.
    pub fn offset(&self) -> (r: u32)
        ensures
            r == self@.offset,
    {
        self.offset
    }
}

impl Memory for RAM {
    fn read(&self, address: u16) -> (r: MemoryReadResult) {
        proof {
            use_type_invariant(self);
        }
        let address = address as u32;
        if address >= self.offset && address - self.offset < self.size {
            Ok(self.data[(address - self.offset) as usize])
        } else {
            Err(MemoryError::OutOfBounds)
        }
    }

    fn write(&mut self, address: u16, value: u8) -> (r: MemoryWriteResult) {
        proof {
            use_type_invariant(&*self);
        }
        let address = address as u32;
        if address >= self.offset && address - self.offset < self.size {
            let RAM { mut data, size, offset } = self.take();
            data.set((address - offset) as usize, value);
            *self = RAM { data, size, offset };
            Ok(())
        } else {
            Err(MemoryError::OutOfBounds)
        }
    }

    fn load(&mut self, data: Vec<u8>) -> (r: MemoryWriteResult) {
        proof {
            use_type_invariant(&*self);
        }
        if data.len() as u64 > self.size as u64 {
            return Err(MemoryError::OutOfBounds);
        }
        let RAM { data: mut storage, size, offset } = self.take();
        fill_storage(&mut storage, &data, size);
        *self = RAM { data: storage, size, offset };
        Ok(())
    }

    fn type_of(&self) -> (r: MemoryType) {
        proof {
            use_type_invariant(self);
        }
        MemoryType::RAM
    }
}

impl std::ops::Index<u16> for RAM {
    type Output = u8;

    /// The byte at `index`; an address outside the device is a caller error.
    fn index(&self, index: u16) -> (r: &u8)
        ensures
            *r == self@.bytes[index - self@.offset],
    {
        proof {
            use_type_invariant(self);
        }
        &self.data[(index as u32 - self.offset) as usize]
    }
}

impl vstd::std_specs::core::IndexSpecImpl<u16> for RAM {
    open spec fn index_req(&self, index: &u16) -> bool {
        self@.contains(*index as int)
    }
}

impl std::ops::IndexMut<u16> for RAM {
    /// The byte at `index`, for writing; an address outside the device is a caller error.
    fn index_mut(&mut self, index: u16) -> (r: &mut u8)
        requires
            old(self)@.contains(index as int),
        ensures
            *r == old(self)@.bytes[index - old(self)@.offset],
            final(self)@ == old(self)@.with_bytes(
                old(self)@.bytes.update(index - old(self)@.offset, *final(r)),
            ),
    {
        proof {
            use_type_invariant(&*self);
        }
        &mut self.data[(index as u32 - self.offset) as usize]
    }
}

/// Read-only memory: reads as RAM does, writes are accepted and discarded.
#[derive(Debug)]
pub struct ROM {
    data: Vec<u8>,
    size: u32,
    offset: u32,
}

impl View for ROM {
    type V = DeviceState;

    closed spec fn view(&self) -> DeviceState {
        DeviceState { kind: MemoryType::ROM, offset: self.offset, size: self.size, bytes: self.data@ }
    }
}

impl ROM {
    /// The storage always holds exactly `size` bytes.
    #[verifier::type_invariant]
    spec fn inv(&self) -> bool {
        self.data@.len() == self.size
    }

    /// Moves the device out, leaving an empty one in its place.
    fn take(&mut self) -> (r: ROM)
        ensures
            r == *old(self),
    {
        let mut r = ROM { data: Vec::new(), size: 0, offset: 0 };
        std::mem::swap(self, &mut r);
        r
    }

    /// Every ROM is of kind `ROM`.
    pub proof fn lemma_kind(&self)
        ensures
            self@.kind == MemoryType::ROM,
    {
    }

    /// A ROM of `size` bytes at `offset`, holding `data` followed by zeros.
    pub fn new(data: Vec<u8>, size: u32, offset: u32) -> (r: ROM)
        requires
            data@.len() <= size,
        ensures
            r@ == (DeviceState {
                kind: MemoryType::ROM,
                offset,
                size,
                bytes: zero_padded(data@, size as nat),
            }),
    {
        let mut storage: Vec<u8> = Vec::new();
        fill_storage(&mut storage, &data, size);
        ROM { data: storage, size, offset }
    }

    /// As `new`, but an image longer than `size` is refused with `OutOfBounds`.
    pub fn from_image(data: Vec<u8>, size: u32, offset: u32) -> (r: Result<ROM, MemoryError>)
        ensures
            data@.len() > size ==> r == Err::<ROM, MemoryError>(MemoryError::OutOfBounds),
            data@.len() <= size ==> (r matches Ok(rom) && rom@ == (DeviceState {
                kind: MemoryType::ROM,
                offset,
                size,
                bytes: zero_padded(data@, size as nat),
            })),
    {
        if data.len() as u64 > size as u64 {
            Err(MemoryError::OutOfBounds)
        } else {
            Ok(ROM::new(data, size, offset))
        }
    }

    /// Capacity in bytes.
    pub fn size(&self) -> (r: u32)
        ensures
            r == self@.size,
    {
        self.size
    }

    /// First address the device answers to.
    pub fn offset(&self) -> (r: u32)
        ensures
            r == self@.offset,
    {
        self.offset
    }
}

impl Memory for ROM {
    fn read(&self, address: u16) -> (r: MemoryReadResult) {
        proof {
            use_type_invariant(self);
        }
        let address = address as u32;
        if address >= self.offset && address - self.offset < self.size {
            Ok(self.data[(address - self.offset) as usize])
        } else {
            Err(MemoryError::OutOfBounds)
        }
    }

    fn write(&mut self, address: u16, value: u8) -> (r: MemoryWriteResult) {
        proof {
            use_type_invariant(&*self);
        }
        Ok(())
    }

    fn load(&mut self, data: Vec<u8>) -> (r: MemoryWriteResult) {
        proof {
            use_type_invariant(&*self);
        }
        if data.len() as u64 > self.size as u64 {
            return Err(MemoryError::OutOfBounds);
        }
        let ROM { data: mut storage, size, offset } = self.take();
        fill_storage(&mut storage, &data, size);
        *self = ROM { data: storage, size, offset };
        Ok(())
    }

    fn type_of(&self) -> (r: MemoryType) {
        proof {
            use_type_invariant(self);
        }
        MemoryType::ROM
    }
}

impl std::ops::Index<u16> for ROM {
    type Output = u8;

    /// The byte at `index`; an address outside the device is a caller error.
    fn index(&self, index: u16) -> (r: &u8)
        ensures
            *r == self@.bytes[index - self@.offset],
    {
        proof {
            use_type_invariant(self);
        }
        &self.data[(index as u32 - self.offset) as usize]
    }
}

impl vstd::std_specs::core::IndexSpecImpl<u16> for ROM {
    open spec fn index_req(&self, index: &u16) -> bool {
        self@.contains(*index as int)
    }
}

} // verus!
