//! Memory classification, descriptors, and the owned memory map snapshot.

use vstd::arithmetic::div_mod::{
    lemma_fundamental_div_mod, lemma_mod_multiples_vanish, lemma_small_mod,
};
use vstd::arithmetic::mul::{lemma_mul_inequality, lemma_mul_is_distributive_add_other_way};
use vstd::prelude::*;

use crate::boot::{BootServices, FirmwareServices, MapReport};
use crate::codec::{
    decode_descriptor, read_u32_le, spec_decode_descriptor, write_u32_le, MEMORY_DESCRIPTOR_SIZE,
};
use crate::status::Error;

verus! {

/// The firmware's page size in bytes: pages are always 4 KiB.
pub const PAGE_SIZE: usize = 0x1000;

/// Raw classification code for the code of boot-service drivers.
pub const MEMORY_TYPE_BOOT_SERVICES_CODE: u32 = 3;

/// Raw classification code for the data of boot-service drivers.
pub const MEMORY_TYPE_BOOT_SERVICES_DATA: u32 = 4;

/// Raw classification code for free, usable memory.
pub const MEMORY_TYPE_CONVENTIONAL: u32 = 7;

/// A physical address.
#[derive(Clone, Copy, Debug, Default, PartialEq, Eq, Structural)]
pub struct PhysicalAddress(pub u64);

/// A virtual address.
#[derive(Clone, Copy, Debug, Default, PartialEq, Eq, Structural)]
pub struct VirtualAddress(pub u64);

/// The raw, open-ended classification code of a memory region.
///
/// The code space is open-ended: besides the named architectural values there
/// are vendor and loader sub-ranges, so the raw number is always carried
/// through rather than mapped onto a closed set.
#[derive(Clone, Copy, Debug, PartialEq, Eq, Structural)]
pub struct MemoryType(pub u32);

/// The named reading of a [`MemoryType`] code.
///
/// Conversion in both directions keeps the numeric value: turning a raw code
/// into its name and back returns the original code.
#[derive(Clone, Copy, Debug, PartialEq, Eq, Structural)]
pub enum NamedMemoryType {
    /// Not usable.
    ReservedMemoryType,
    /// The code portions of a loaded application.
    LoaderCode,
    /// The data portions of a loaded application.
    LoaderData,
    /// The code portions of a loaded boot-service driver.
    BootServicesCode,
    /// The data portions of a loaded boot-service driver.
    BootServicesData,
    /// The code portions of a loaded runtime driver.
    RuntimeServicesCode,
    /// The data portions of a loaded runtime driver.
    RuntimeServicesData,
    /// Free, unallocated memory.
    ConventionalMemory,
    /// Memory in which errors have been detected.
    UnusableMemory,
    /// Memory that holds reclaimable platform configuration tables.
    ACPIReclaimMemory,
    /// Address space reserved for use by the firmware.
    ACPIMemoryNVS,
    /// Memory-mapped I/O that the operating system must map for runtime use.
    MemoryMappedIO,
    /// Memory-mapped I/O port space.
    MemoryMappedIOPortSpace,
    /// Address space reserved for processor firmware code.
    PalCode,
    /// Byte-addressable non-volatile memory.
    PersistentMemory,
    /// A code this library does not know; the raw value is carried through.
    UnknownMemoryType(u32),
    /// A code in the vendor-specific sub-range, carried as its offset into
    /// that range.
    OEMSpecific(u32),
    /// A code in the loader-specific sub-range, carried as its offset into
    /// that range.
    OSLoaderSpecific(u32),
}

/// The raw code a named classification stands for.
///
/// Sub-range names carry an offset; an offset too large for its sub-range
/// wraps around the 32-bit code space, so every named value has some code.
pub open spec fn spec_raw_of_named(named: NamedMemoryType) -> MemoryType {
    match named {
        NamedMemoryType::ReservedMemoryType => MemoryType(0),
        NamedMemoryType::LoaderCode => MemoryType(1),
        NamedMemoryType::LoaderData => MemoryType(2),
        NamedMemoryType::BootServicesCode => MemoryType(3),
        NamedMemoryType::BootServicesData => MemoryType(4),
        NamedMemoryType::RuntimeServicesCode => MemoryType(5),
        NamedMemoryType::RuntimeServicesData => MemoryType(6),
        NamedMemoryType::ConventionalMemory => MemoryType(7),
        NamedMemoryType::UnusableMemory => MemoryType(8),
        NamedMemoryType::ACPIReclaimMemory => MemoryType(9),
        NamedMemoryType::ACPIMemoryNVS => MemoryType(10),
        NamedMemoryType::MemoryMappedIO => MemoryType(11),
        NamedMemoryType::MemoryMappedIOPortSpace => MemoryType(12),
        NamedMemoryType::PalCode => MemoryType(13),
        NamedMemoryType::PersistentMemory => MemoryType(14),
        NamedMemoryType::UnknownMemoryType(num) => MemoryType(num),
        NamedMemoryType::OEMSpecific(num) => MemoryType(
            if num + 0x7000_0000 <= 0xffff_ffff {
                (num + 0x7000_0000) as u32
            } else {
                (num - 0x9000_0000) as u32
            },
        ),
        NamedMemoryType::OSLoaderSpecific(num) => MemoryType(
            if num + 0x8000_0000 <= 0xffff_ffff {
                (num + 0x8000_0000) as u32
            } else {
                (num - 0x8000_0000) as u32
            },
        ),
    }
}

/// The name a raw code reads as.
pub open spec fn spec_named_of_raw(memory_type: MemoryType) -> NamedMemoryType {
    let num = memory_type.0;
    if num == 0 {
        NamedMemoryType::ReservedMemoryType
    } else if num == 1 {
        NamedMemoryType::LoaderCode
    } else if num == 2 {
        NamedMemoryType::LoaderData
    } else if num == 3 {
        NamedMemoryType::BootServicesCode
    } else if num == 4 {
        NamedMemoryType::BootServicesData
    } else if num == 5 {
        NamedMemoryType::RuntimeServicesCode
    } else if num == 6 {
        NamedMemoryType::RuntimeServicesData
    } else if num == 7 {
        NamedMemoryType::ConventionalMemory
    } else if num == 8 {
        NamedMemoryType::UnusableMemory
    } else if num == 9 {
        NamedMemoryType::ACPIReclaimMemory
    } else if num == 10 {
        NamedMemoryType::ACPIMemoryNVS
    } else if num == 11 {
        NamedMemoryType::MemoryMappedIO
    } else if num == 12 {
        NamedMemoryType::MemoryMappedIOPortSpace
    } else if num == 13 {
        NamedMemoryType::PalCode
    } else if num == 14 {
        NamedMemoryType::PersistentMemory
    } else if num < 0x7000_0000 {
        NamedMemoryType::UnknownMemoryType(num)
    } else if num < 0x8000_0000 {
        NamedMemoryType::OEMSpecific((num - 0x7000_0000) as u32)
    } else {
        NamedMemoryType::OSLoaderSpecific((num - 0x8000_0000) as u32)
    }
}

impl From<NamedMemoryType> for MemoryType {
    /// The raw code of a named classification.
    fn from(named_memory_type: NamedMemoryType) -> (r: MemoryType) {
        match named_memory_type {
            NamedMemoryType::ReservedMemoryType => MemoryType(0),
            NamedMemoryType::LoaderCode => MemoryType(1),
            NamedMemoryType::LoaderData => MemoryType(2),
            NamedMemoryType::BootServicesCode => MemoryType(3),
            NamedMemoryType::BootServicesData => MemoryType(4),
            NamedMemoryType::RuntimeServicesCode => MemoryType(5),
            NamedMemoryType::RuntimeServicesData => MemoryType(6),
            NamedMemoryType::ConventionalMemory => MemoryType(7),
            NamedMemoryType::UnusableMemory => MemoryType(8),
            NamedMemoryType::ACPIReclaimMemory => MemoryType(9),
            NamedMemoryType::ACPIMemoryNVS => MemoryType(10),
            NamedMemoryType::MemoryMappedIO => MemoryType(11),
            NamedMemoryType::MemoryMappedIOPortSpace => MemoryType(12),
            NamedMemoryType::PalCode => MemoryType(13),
            NamedMemoryType::PersistentMemory => MemoryType(14),
            NamedMemoryType::UnknownMemoryType(num) => MemoryType(num),
            NamedMemoryType::OEMSpecific(num) => {
                if num <= 0xffff_ffff - 0x7000_0000 {
                    MemoryType(num + 0x7000_0000)
                } else {
                    MemoryType(num - 0x9000_0000)
                }
            },
            NamedMemoryType::OSLoaderSpecific(num) => {
                if num <= 0xffff_ffff - 0x8000_0000 {
                    MemoryType(num + 0x8000_0000)
                } else {
                    MemoryType(num - 0x8000_0000)
                }
            },
        }
    }
}

impl vstd::std_specs::convert::FromSpecImpl<NamedMemoryType> for MemoryType {
    open spec fn obeys_from_spec() -> bool {
        true
    }

    open spec fn from_spec(named: NamedMemoryType) -> MemoryType {
        spec_raw_of_named(named)
    }
}

impl From<MemoryType> for NamedMemoryType {
    /// The name a raw code reads as.
    fn from(memory_type: MemoryType) -> (r: NamedMemoryType) {
        match memory_type.0 {
            0 => NamedMemoryType::ReservedMemoryType,
            1 => NamedMemoryType::LoaderCode,
            2 => NamedMemoryType::LoaderData,
            3 => NamedMemoryType::BootServicesCode,
            4 => NamedMemoryType::BootServicesData,
            5 => NamedMemoryType::RuntimeServicesCode,
            6 => NamedMemoryType::RuntimeServicesData,
            7 => NamedMemoryType::ConventionalMemory,
            8 => NamedMemoryType::UnusableMemory,
            9 => NamedMemoryType::ACPIReclaimMemory,
            10 => NamedMemoryType::ACPIMemoryNVS,
            11 => NamedMemoryType::MemoryMappedIO,
            12 => NamedMemoryType::MemoryMappedIOPortSpace,
            13 => NamedMemoryType::PalCode,
            14 => NamedMemoryType::PersistentMemory,
            num if num < 0x7000_0000 => NamedMemoryType::UnknownMemoryType(num),
            num if num < 0x8000_0000 => NamedMemoryType::OEMSpecific(num - 0x7000_0000),
            num => NamedMemoryType::OSLoaderSpecific(num - 0x8000_0000),
        }
    }
}

impl vstd::std_specs::convert::FromSpecImpl<MemoryType> for NamedMemoryType {
    open spec fn obeys_from_spec() -> bool {
        true
    }

    open spec fn from_spec(memory_type: MemoryType) -> NamedMemoryType {
        spec_named_of_raw(memory_type)
    }
}

/// Law: reading a raw code as a name and turning the name back into a code
/// returns the original code, for every 32-bit code.
pub proof fn lemma_raw_named_round_trip(memory_type: MemoryType)
    ensures
        spec_raw_of_named(spec_named_of_raw(memory_type)) == memory_type,
{
}

/// True when the named value is in the canonical range of its variant: the
/// carried number of an unknown code lies in the unknown sub-range, and a
/// sub-range offset is small enough not to leave its sub-range.
pub open spec fn spec_named_canonical(named: NamedMemoryType) -> bool {
    match named {
        NamedMemoryType::UnknownMemoryType(num) => 15 <= num < 0x7000_0000,
        NamedMemoryType::OEMSpecific(num) => num < 0x1000_0000,
        NamedMemoryType::OSLoaderSpecific(num) => num < 0x8000_0000,
        _ => true,
    }
}

/// Law: turning a canonical named classification into its raw code and
/// reading the code back returns the same name.
pub proof fn lemma_named_raw_round_trip(named: NamedMemoryType)
    requires
        spec_named_canonical(named),
    ensures
        spec_named_of_raw(spec_raw_of_named(named)) == named,
{
}

/// The region supports being configured as not cacheable.
pub const MEMORY_ATTRIBUTE_UC: u64 = 0x0000_0000_0000_0001;

/// The region supports being configured as write combining.
pub const MEMORY_ATTRIBUTE_WC: u64 = 0x0000_0000_0000_0002;

/// The region supports a write-through cache policy.
pub const MEMORY_ATTRIBUTE_WT: u64 = 0x0000_0000_0000_0004;

/// The region supports a write-back cache policy.
pub const MEMORY_ATTRIBUTE_WB: u64 = 0x0000_0000_0000_0008;

/// The region supports being not cacheable, exported, with fetch-and-add.
pub const MEMORY_ATTRIBUTE_UCE: u64 = 0x0000_0000_0000_0010;

/// The region supports being write-protected by hardware.
pub const MEMORY_ATTRIBUTE_WP: u64 = 0x0000_0000_0000_1000;

/// The region supports being read-protected by hardware.
pub const MEMORY_ATTRIBUTE_RP: u64 = 0x0000_0000_0000_2000;

/// The region supports being protected from code execution.
pub const MEMORY_ATTRIBUTE_XP: u64 = 0x0000_0000_0000_4000;

/// The region refers to persistent memory.
pub const MEMORY_ATTRIBUTE_NV: u64 = 0x0000_0000_0000_8000;

/// The region provides higher reliability than other memory.
pub const MEMORY_ATTRIBUTE_MORE_RELIABLE: u64 = 0x0000_0000_0001_0000;

/// The region supports being made read-only by hardware.
pub const MEMORY_ATTRIBUTE_RO: u64 = 0x0000_0000_0002_0000;

/// The region needs a virtual mapping from the operating system for runtime
/// use.
pub const MEMORY_ATTRIBUTE_RUNTIME: u64 = 0x8000_0000_0000_0000;

/// The capability bit set of a memory region.
#[derive(Clone, Copy, Debug, Default, PartialEq, Eq, Structural)]
pub struct MemoryAttributes(pub u64);

impl MemoryAttributes {
    /// Whether every capability bit of `mask` is present.
    pub fn contains(&self, mask: u64) -> (r: bool)
        ensures
            r == (self.0 & mask == mask),
    {
        self.0 & mask == mask
    }

    /// The raw bit set.
    pub fn bits(&self) -> (r: u64)
        ensures
            r == self.0,
    {
        self.0
    }
}

/// The decoded form of one memory map record: the spec-defined leading
/// fields of a descriptor.
///
/// A record in a map buffer may be wider than these fields; the extra
/// trailing bytes belong to the firmware and are preserved, never
/// interpreted.
#[derive(Clone, Copy, Debug, PartialEq, Eq, Structural)]
#[allow(non_snake_case)]
pub struct MemoryDescriptor {
    /// Classification of the memory region.
    pub Type: MemoryType,
    /// Physical address of the first byte of the region; page-aligned by the
    /// platform contract.
    pub PhysicalStart: PhysicalAddress,
    /// Virtual address of the first byte of the region.
    pub VirtualStart: VirtualAddress,
    /// Number of whole pages in the region.
    pub NumberOfPages: u64,
    /// Capability bit set of the region.
    pub Attribute: MemoryAttributes,
}

/// Record `i` of a run of records of width `stride` lies within the first
/// `size` bytes whenever `i` is below `size / stride`.
proof fn lemma_record_in_bounds(size: int, stride: int, i: int)
    requires
        stride > 0,
        size >= 0,
        0 <= i < size / stride,
    ensures
        0 <= i * stride,
        i * stride + stride <= size,
{
    lemma_fundamental_div_mod(size, stride);
    lemma_mul_inequality(i + 1, size / stride, stride);
    lemma_mul_is_distributive_add_other_way(stride, i, 1);
    lemma_mul_inequality(0, i, stride);
}

/// Two distinct records of one run do not overlap: the earlier one ends
/// before the later one starts.
proof fn lemma_records_disjoint(stride: int, a: int, b: int)
    requires
        stride > 0,
        0 <= a < b,
    ensures
        a * stride + stride <= b * stride,
{
    lemma_mul_inequality(a + 1, b, stride);
    lemma_mul_is_distributive_add_other_way(stride, a, 1);
}

/// A classification with the boot-service tag rewritten to conventional;
/// any other classification is kept.
pub open spec fn spec_reclassify(d: MemoryDescriptor) -> MemoryDescriptor {
    if d.Type.0 == MEMORY_TYPE_BOOT_SERVICES_CODE || d.Type.0 == MEMORY_TYPE_BOOT_SERVICES_DATA {
        MemoryDescriptor { Type: MemoryType(MEMORY_TYPE_CONVENTIONAL), ..d }
    } else {
        d
    }
}

/// An owned snapshot of the firmware's memory map.
///
/// The snapshot owns the page allocation backing its buffer; it is released
/// exactly once, explicitly, through [`MemoryMap::drop`] — never implicitly,
/// because the allocator that produced it may no longer be callable after
/// boot services have been terminated.
#[derive(Debug)]
pub struct MemoryMap {
    /// The bytes of the map.
    buffer: Vec<u8>,
    /// The physical address the firmware allocated the buffer at.
    address: u64,
    /// Whole pages allocated for the buffer.
    alloc_size: usize,
    /// Bytes of the buffer actually populated with records.
    size: usize,
    /// The reclamation key identifying this exact snapshot to the firmware.
    key: usize,
    /// The byte width of one record; at least [`MEMORY_DESCRIPTOR_SIZE`].
    descriptor_size: usize,
    /// The record format version.
    version: u32,
}

impl MemoryMap {
    /// The bytes of the map buffer.
    pub closed spec fn spec_buffer(&self) -> Seq<u8> {
        self.buffer@
    }

    /// The physical address of the underlying allocation.
    pub closed spec fn spec_address(&self) -> u64 {
        self.address
    }

    /// Whole pages allocated for the buffer.
    pub closed spec fn spec_alloc_pages(&self) -> usize {
        self.alloc_size
    }

    /// Bytes actually populated.
    pub closed spec fn spec_size(&self) -> usize {
        self.size
    }

    /// The reclamation key.
    pub closed spec fn spec_key(&self) -> usize {
        self.key
    }

    /// The record stride.
    pub closed spec fn spec_stride(&self) -> usize {
        self.descriptor_size
    }

    /// The record format version.
    pub closed spec fn spec_version(&self) -> u32 {
        self.version
    }

    /// The snapshot's invariant: the stride is at least the smallest valid
    /// descriptor, the populated bytes fit the buffer, and the buffer is
    /// exactly the allocated pages.
    pub open spec fn wf(&self) -> bool {
        &&& self.spec_stride() >= MEMORY_DESCRIPTOR_SIZE
        &&& self.spec_size() <= self.spec_buffer().len()
        &&& self.spec_buffer().len() == self.spec_alloc_pages() * PAGE_SIZE
    }

    /// How many whole records the populated bytes hold; a trailing partial
    /// record does not count.
    pub open spec fn spec_len(&self) -> int
        recommends
            self.wf(),
    {
        self.spec_size() as int / self.spec_stride() as int
    }

    /// The decoded record at index `i`.
    pub open spec fn spec_descriptor_at(&self, i: int) -> MemoryDescriptor
        recommends
            self.wf(),
            0 <= i < self.spec_len(),
    {
        spec_decode_descriptor(self.spec_buffer(), i * self.spec_stride())
    }

    /// All decoded records, in buffer order.
    pub open spec fn spec_descriptors(&self) -> Seq<MemoryDescriptor>
        recommends
            self.wf(),
    {
        Seq::new(self.spec_len() as nat, |i: int| self.spec_descriptor_at(i))
    }

    /// Builds a snapshot from its parts, validating the stride and the
    /// total length before any typed access is permitted.
    ///
    /// Succeeds exactly when the stride is at least the smallest valid
    /// descriptor and the sizes are consistent; a too-small stride is the
    /// firmware's contract violation, inconsistent sizes are the caller's
    /// parameter error.
    pub fn from_parts(
        buffer: Vec<u8>,
        address: u64,
        alloc_pages: usize,
        size: usize,
        key: usize,
        descriptor_size: usize,
        version: u32,
    ) -> (r: Result<MemoryMap, Error>)
        ensures
            descriptor_size < MEMORY_DESCRIPTOR_SIZE ==> r == Err::<MemoryMap, Error>(
                Error::Noncompliant,
            ),
            descriptor_size >= MEMORY_DESCRIPTOR_SIZE && !(size <= buffer@.len() && buffer@.len()
                == alloc_pages * PAGE_SIZE) ==> r == Err::<MemoryMap, Error>(
                Error::InvalidParameter,
            ),
            descriptor_size >= MEMORY_DESCRIPTOR_SIZE && size <= buffer@.len() && buffer@.len()
                == alloc_pages * PAGE_SIZE ==> (r matches Ok(m) && m.wf() && m.spec_buffer()
                == buffer@ && m.spec_address() == address && m.spec_alloc_pages() == alloc_pages
                && m.spec_size() == size && m.spec_key() == key && m.spec_stride()
                == descriptor_size && m.spec_version() == version),
    {
        if descriptor_size < MEMORY_DESCRIPTOR_SIZE {
            return Err(Error::Noncompliant);
        }
        if size > buffer.len() {
            return Err(Error::InvalidParameter);
        }
        if alloc_pages > usize::MAX / PAGE_SIZE {
            proof {
                lemma_fundamental_div_mod(usize::MAX as int, PAGE_SIZE as int);
                lemma_mul_inequality(usize::MAX as int / PAGE_SIZE as int + 1, alloc_pages as int, PAGE_SIZE as int);
            }
            return Err(Error::InvalidParameter);
        }
        if buffer.len() != alloc_pages * PAGE_SIZE {
            return Err(Error::InvalidParameter);
        }
        Ok(
            MemoryMap {
                buffer,
                address,
                alloc_size: alloc_pages,
                size,
                key,
                descriptor_size,
                version,
            },
        )
    }

    /// The number of whole records in the map.
    pub fn len(&self) -> (r: usize)
        requires
            self.wf(),
        ensures
            r == self.spec_len(),
    {
        self.size / self.descriptor_size
    }

    /// True when the map holds no whole record.
    pub fn is_empty(&self) -> (r: bool)
        requires
            self.wf(),
        ensures
            r == (self.spec_len() == 0),
    {
        self.len() == 0
    }

    /// The underlying buffer, whole pages included.
    ///
    /// Mainly useful to learn the address and size of the allocation that
    /// must be released after the map is no longer needed.
    pub fn buffer(&self) -> (r: &[u8])
        ensures
            r@ == self.spec_buffer(),
    {
        self.buffer.as_slice()
    }

    /// The reclamation key of this snapshot.
    pub fn key(&self) -> (r: usize)
        ensures
            r == self.spec_key(),
    {
        self.key
    }

    /// The byte width of one record.
    pub fn descriptor_size(&self) -> (r: usize)
        ensures
            r == self.spec_stride(),
    {
        self.descriptor_size
    }

    /// Bytes of the buffer populated with records.
    pub fn size(&self) -> (r: usize)
        ensures
            r == self.spec_size(),
    {
        self.size
    }

    /// The record format version.
    pub fn version(&self) -> (r: u32)
        ensures
            r == self.spec_version(),
    {
        self.version
    }

    /// The physical address of the underlying allocation.
    pub fn address(&self) -> (r: u64)
        ensures
            r == self.spec_address(),
    {
        self.address
    }

    /// Decodes the record at `index`.
    pub fn descriptor_at(&self, index: usize) -> (d: MemoryDescriptor)
        requires
            self.wf(),
            index < self.spec_len(),
        ensures
            d == self.spec_descriptor_at(index as int),
    {
        proof {
            lemma_record_in_bounds(
                self.spec_size() as int,
                self.spec_stride() as int,
                index as int,
            );
        }
        decode_descriptor(&self.buffer, index * self.descriptor_size)
    }

    /// Rewrites the classification of the record at `index`, touching
    /// nothing else: the other fields, the record's trailing bytes and
    /// every other record keep their bytes.
    pub fn set_type_at(&mut self, index: usize, memory_type: MemoryType)
        requires
            old(self).wf(),
            index < old(self).spec_len(),
        ensures
            final(self).wf(),
            final(self).spec_address() == old(self).spec_address(),
            final(self).spec_alloc_pages() == old(self).spec_alloc_pages(),
            final(self).spec_size() == old(self).spec_size(),
            final(self).spec_key() == old(self).spec_key(),
            final(self).spec_stride() == old(self).spec_stride(),
            final(self).spec_version() == old(self).spec_version(),
            final(self).spec_buffer().len() == old(self).spec_buffer().len(),
            final(self).spec_descriptor_at(index as int) == (MemoryDescriptor {
                Type: memory_type,
                ..old(self).spec_descriptor_at(index as int)
            }),
            forall|i: int|
                0 <= i < old(self).spec_len() && i != index ==> final(self).spec_descriptor_at(i)
                    == old(self).spec_descriptor_at(i),
            forall|j: int|
                0 <= j < old(self).spec_buffer().len() && !(index * old(self).spec_stride() <= j
                    < index * old(self).spec_stride() + 4) ==> final(self).spec_buffer()[j] == old(self).spec_buffer()[j],
    {
        proof {
            lemma_record_in_bounds(
                self.spec_size() as int,
                self.spec_stride() as int,
                index as int,
            );
        }
        let offset = index * self.descriptor_size;
        write_u32_le(&mut self.buffer, offset, memory_type.0);
        proof {
            let stride = old(self).spec_stride() as int;
            let size = old(self).spec_size() as int;
            assert forall|i: int|
                0 <= i < old(self).spec_len() && i != index implies self.spec_descriptor_at(i)
                == old(self).spec_descriptor_at(i) by {
                lemma_record_in_bounds(size, stride, i);
                if i < index {
                    lemma_records_disjoint(stride, i, index as int);
                } else {
                    lemma_records_disjoint(stride, index as int, i);
                }
            }
        }
    }

    /// Returns a fresh, restartable iterator over the decoded records.
    pub fn iter(&self) -> (it: MemoryMapIterator)
        requires
            self.wf(),
        ensures
            it.spec_items() == self.spec_descriptors(),
            it.spec_position() == 0,
    {
        let count = self.len();
        let mut items: Vec<MemoryDescriptor> = Vec::new();
        let mut i: usize = 0;
        while i < count
            invariant
                self.wf(),
                count == self.spec_len(),
                i <= count,
                items@.len() == i,
                forall|k: int| 0 <= k < i ==> items@[k] == self.spec_descriptor_at(k),
            decreases count - i,
        {
            items.push(self.descriptor_at(i));
            i = i + 1;
        }
        proof {
            assert(items@ =~= self.spec_descriptors());
        }
        MemoryMapIterator { items, position: 0 }
    }

    /// Returns a fresh cursor over the record indices, for rewriting
    /// classifications in place through [`MemoryMap::set_type_at`].
    pub fn iter_mut(&mut self) -> (it: MemoryMapIteratorMut)
        requires
            old(self).wf(),
        ensures
            *final(self) == *old(self),
            it.spec_count() == old(self).spec_len(),
            it.spec_position() == 0,
    {
        MemoryMapIteratorMut { position: 0, count: self.len() }
    }

    /// Rewrites every record tagged as boot-service code or data to the
    /// conventional classification, in place.  Every other byte of the
    /// buffer — other fields, trailing record bytes, the partial tail —
    /// keeps its value.
    pub fn reclassify_boot_regions(&mut self)
        requires
            old(self).wf(),
        ensures
            final(self).wf(),
            final(self).spec_address() == old(self).spec_address(),
            final(self).spec_alloc_pages() == old(self).spec_alloc_pages(),
            final(self).spec_size() == old(self).spec_size(),
            final(self).spec_key() == old(self).spec_key(),
            final(self).spec_stride() == old(self).spec_stride(),
            final(self).spec_version() == old(self).spec_version(),
            final(self).spec_buffer().len() == old(self).spec_buffer().len(),
            forall|i: int|
                0 <= i < old(self).spec_len() ==> final(self).spec_descriptor_at(i)
                    == spec_reclassify(old(self).spec_descriptor_at(i)),
            forall|j: int|
                0 <= j < old(self).spec_buffer().len() && j % (old(self).spec_stride() as int) >= 4
                    ==> #[trigger] final(self).spec_buffer()[j] == old(self).spec_buffer()[j],
            forall|j: int|
                old(self).spec_len() * (old(self).spec_stride() as int) <= j < old(self).spec_buffer().len() ==> #[trigger] final(self).spec_buffer()[j] == old(self).spec_buffer()[j],
    {
        let ghost orig = *old(self);
        let ghost stride = old(self).spec_stride() as int;
        let count = self.len();
        let mut k: usize = 0;
        while k < count
            invariant
                self.wf(),
                orig.wf(),
                stride == orig.spec_stride() as int,
                count == orig.spec_len(),
                k <= count,
                self.spec_address() == orig.spec_address(),
                self.spec_alloc_pages() == orig.spec_alloc_pages(),
                self.spec_size() == orig.spec_size(),
                self.spec_key() == orig.spec_key(),
                self.spec_stride() == orig.spec_stride(),
                self.spec_version() == orig.spec_version(),
                self.spec_buffer().len() == orig.spec_buffer().len(),
                forall|i: int|
                    0 <= i < k ==> self.spec_descriptor_at(i) == spec_reclassify(
                        orig.spec_descriptor_at(i),
                    ),
                forall|j: int|
                    0 <= j < orig.spec_buffer().len() && j % stride >= 4
                        ==> #[trigger] self.spec_buffer()[j] == orig.spec_buffer()[j],
                forall|j: int|
                    k * stride <= j < orig.spec_buffer().len()
                        ==> #[trigger] self.spec_buffer()[j] == orig.spec_buffer()[j],
            decreases count - k,
        {
            proof {
                lemma_record_in_bounds(orig.spec_size() as int, stride, k as int);
                lemma_mul_is_distributive_add_other_way(stride, k as int, 1);
            }
            let offset = k * self.descriptor_size;
            proof {
                assert forall|j: int|
                    offset <= j < offset + stride implies self.spec_buffer()[j]
                    == orig.spec_buffer()[j] by {}
                assert(self.spec_descriptor_at(k as int) == orig.spec_descriptor_at(k as int));
            }
            let d_type = read_u32_le(&self.buffer, offset);
            assert(d_type == orig.spec_descriptor_at(k as int).Type.0);
            if d_type == MEMORY_TYPE_BOOT_SERVICES_CODE || d_type == MEMORY_TYPE_BOOT_SERVICES_DATA {
                let ghost before = *self;
                self.set_type_at(k, MemoryType(MEMORY_TYPE_CONVENTIONAL));
                proof {
                    assert(before.spec_descriptor_at(k as int) == orig.spec_descriptor_at(
                        k as int,
                    ));
                    assert(self.spec_descriptor_at(k as int) == spec_reclassify(
                        orig.spec_descriptor_at(k as int),
                    ));
                    assert forall|i: int|
                        0 <= i < k implies self.spec_descriptor_at(i) == spec_reclassify(
                        orig.spec_descriptor_at(i),
                    ) by {
                        assert(self.spec_descriptor_at(i) == before.spec_descriptor_at(i));
                    }
                    assert forall|j: int|
                        0 <= j < orig.spec_buffer().len() && j % stride >= 4
                            implies #[trigger] self.spec_buffer()[j] == orig.spec_buffer()[j] by {
                        if offset <= j < offset + 4 {
                            lemma_mod_multiples_vanish(k as int, j - offset, stride);
                            assert(stride * (k as int) + (j - offset) == j);
                            assert(j % stride == (j - offset) % stride);
                            lemma_small_mod((j - offset) as nat, stride as nat);
                            assert(false);
                        } else {
                            assert(self.spec_buffer()[j] == before.spec_buffer()[j]);
                        }
                    }
                    assert forall|j: int|
                        (k + 1) * stride <= j < orig.spec_buffer().len()
                            implies #[trigger] self.spec_buffer()[j] == orig.spec_buffer()[j] by {
                        assert(j >= offset + stride);
                        assert(self.spec_buffer()[j] == before.spec_buffer()[j]);
                    }
                }
            } else {
                proof {
                    assert(self.spec_descriptor_at(k as int) == spec_reclassify(
                        orig.spec_descriptor_at(k as int),
                    ));
                }
            }
            k = k + 1;
        }
        proof {
            assert(count * stride == self.spec_len() * stride);
        }
    }

    /// Installs what the firmware reported about the map it just wrote
    /// into the buffer: the populated size, the reclamation key, the
    /// stride and the version — exactly the report's values.  A report
    /// whose stride is below the smallest valid descriptor is the
    /// firmware breaking its contract: nothing is installed and the
    /// noncompliance error comes back.
    pub fn install_report(&mut self, report: MapReport) -> (r: Result<(), Error>)
        requires
            old(self).wf(),
            report.map_size <= old(self).spec_buffer().len(),
        ensures
            final(self).spec_buffer() == old(self).spec_buffer(),
            final(self).spec_address() == old(self).spec_address(),
            final(self).spec_alloc_pages() == old(self).spec_alloc_pages(),
            report.descriptor_size < MEMORY_DESCRIPTOR_SIZE ==> r == Err::<(), Error>(
                Error::Noncompliant,
            ) && *final(self) == *old(self),
            report.descriptor_size >= MEMORY_DESCRIPTOR_SIZE ==> r == Ok::<(), Error>(())
                && final(self).wf() && final(self).spec_size() == report.map_size && final(self).spec_key() == report.key && final(self).spec_stride() == report.descriptor_size
                && final(self).spec_version() == report.version,
    {
        if report.descriptor_size < MEMORY_DESCRIPTOR_SIZE {
            return Err(Error::Noncompliant);
        }
        self.size = report.map_size;
        self.key = report.key;
        self.descriptor_size = report.descriptor_size;
        self.version = report.version;
        Ok(())
    }

    /// Re-queries the memory map into the existing buffer, without any
    /// allocation: the recovery path of boot-service termination.  The
    /// buffer must already be large enough; no growth is attempted.  On
    /// success the firmware's report is installed through
    /// [`MemoryMap::install_report`], which pins the new metadata to the
    /// report; on failure the snapshot keeps its previous metadata.
    pub fn refresh<S: FirmwareServices>(&mut self, firmware: &mut S) -> (r: Result<(), Error>)
        requires
            old(self).wf(),
        ensures
            final(self).wf(),
            final(self).spec_address() == old(self).spec_address(),
            final(self).spec_alloc_pages() == old(self).spec_alloc_pages(),
            final(self).spec_buffer().len() == old(self).spec_buffer().len(),
            r matches Err(_) ==> final(self).spec_size() == old(self).spec_size() && final(self).spec_stride() == old(self).spec_stride() && final(self).spec_key() == old(self).spec_key() && final(self).spec_version() == old(self).spec_version(),
    {
        let capacity = self.buffer.len();
        let (status, report) = firmware.get_memory_map(capacity, &mut self.buffer);
        if status.is_success() {
            self.install_report(report)
        } else {
            match status.into_result() {
                Err(e) => Err(e),
                Ok(_) => Err(Error::Unknown(status.0)),
            }
        }
    }

    /// Releases the underlying page allocation back to the firmware.
    ///
    /// This must not be called once boot services have been terminated:
    /// after the handoff the allocator is no longer callable, which is why
    /// release is explicit and never implicit.
    pub fn drop<S: FirmwareServices>(self, boot_services: &mut BootServices<S>) -> (r: Result<
        (),
        Error,
    >) {
        boot_services.free_pages(self.address, self.alloc_size)
    }
}

/// Law: iterating a snapshot yields one item per whole record — exactly
/// the populated length divided by the stride, rounding down, so a
/// trailing partial record is dropped rather than decoded.
pub proof fn lemma_iteration_count(m: MemoryMap)
    requires
        m.wf(),
    ensures
        m.spec_descriptors().len() == m.spec_size() as int / m.spec_stride() as int,
        m.spec_size() as int % m.spec_stride() as int == 0 ==> m.spec_descriptors().len() * (
        m.spec_stride() as int) == m.spec_size(),
{
    lemma_fundamental_div_mod(m.spec_size() as int, m.spec_stride() as int);
}

/// An iterator over the decoded records of a [`MemoryMap`].
///
/// Created by [`MemoryMap::iter`]; restartable by creating it anew.
pub struct MemoryMapIterator {
    /// The decoded records, in buffer order.
    items: Vec<MemoryDescriptor>,
    /// The next record to yield.
    position: usize,
}

impl MemoryMapIterator {
    /// The records this iterator yields, in order.
    pub closed spec fn spec_items(&self) -> Seq<MemoryDescriptor> {
        self.items@
    }

    /// How many records have been yielded so far.
    pub closed spec fn spec_position(&self) -> int {
        self.position as int
    }

    /// Yields the next record, or nothing once every record has been
    /// yielded.
    pub fn next(&mut self) -> (r: Option<MemoryDescriptor>)
        ensures
            final(self).spec_items() == old(self).spec_items(),
            old(self).spec_position() < old(self).spec_items().len() ==> r == Some(
                old(self).spec_items()[old(self).spec_position()],
            ) && final(self).spec_position() == old(self).spec_position() + 1,
            old(self).spec_position() >= old(self).spec_items().len() ==> r is None && final(self).spec_position() == old(self).spec_position(),
    {
        if self.position < self.items.len() {
            let d = self.items[self.position];
            self.position = self.position + 1;
            Some(d)
        } else {
            None
        }
    }

    /// The exact number of records still to be yielded, as a lower and
    /// upper bound.
    pub fn size_hint(&self) -> (r: (usize, Option<usize>))
        requires
            self.spec_position() <= self.spec_items().len(),
        ensures
            r.0 == self.spec_items().len() - self.spec_position(),
            r.1 == Some(r.0),
    {
        let remaining = self.items.len() - self.position;
        (remaining, Some(remaining))
    }
}

/// A cursor over the record indices of a [`MemoryMap`], for rewriting
/// classifications in place via [`MemoryMap::set_type_at`].
pub struct MemoryMapIteratorMut {
    /// The next index to yield.
    position: usize,
    /// One past the last index.
    count: usize,
}

impl MemoryMapIteratorMut {
    /// One past the last index this cursor yields.
    pub closed spec fn spec_count(&self) -> int {
        self.count as int
    }

    /// How many indices have been yielded so far.
    pub closed spec fn spec_position(&self) -> int {
        self.position as int
    }

    /// Yields the next record index, or nothing once past the end.
    pub fn next(&mut self) -> (r: Option<usize>)
        ensures
            final(self).spec_count() == old(self).spec_count(),
            old(self).spec_position() < old(self).spec_count() ==> r == Some(
                old(self).spec_position() as usize,
            ) && final(self).spec_position() == old(self).spec_position() + 1,
            old(self).spec_position() >= old(self).spec_count() ==> r is None && final(self).spec_position() == old(self).spec_position(),
    {
        if self.position < self.count {
            let i = self.position;
            self.position = self.position + 1;
            Some(i)
        } else {
            None
        }
    }

    /// The exact number of indices still to be yielded, as a lower and
    /// upper bound.
    pub fn size_hint(&self) -> (r: (usize, Option<usize>))
        requires
            self.spec_position() <= self.spec_count(),
        ensures
            r.0 == self.spec_count() - self.spec_position(),
            r.1 == Some(r.0),
    {
        let remaining = self.count - self.position;
        (remaining, Some(remaining))
    }
}

} // verus!
