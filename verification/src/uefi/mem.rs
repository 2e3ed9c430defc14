//! This module provides memory management primitives in the context of UEFI.

use vstd::prelude::*;

use crate::mm::{PhysAddr, VirtAddr};
use crate::range::{inserted, insert_refused, Interval, Range, RangeSet};
use crate::uefi::bytes::{le_u32, le_u64, read_u32, read_u64};
use crate::uefi::{check_status, status_result, EfiStatus, Error};

verus! {

/// Represents a physical memory address. It is equivalent to the
/// `EFI_PHYSICAL_ADDRESS` type of the UEFI specification.
pub struct EfiPhysAddr(pub u64);

impl From<EfiPhysAddr> for PhysAddr {
    fn from(addr: EfiPhysAddr) -> (ret: Self) {
        PhysAddr(addr.0)
    }
}

impl vstd::std_specs::convert::FromSpecImpl<EfiPhysAddr> for PhysAddr {
    open spec fn obeys_from_spec() -> bool {
        true
    }

    open spec fn from_spec(addr: EfiPhysAddr) -> Self {
        PhysAddr(addr.0)
    }
}

/// Represents a virtual memory address. It is equivalent to the
/// `EFI_VIRTUAL_ADDRESS` type of the UEFI specification.
pub struct EfiVirtAddr(pub u64);

impl From<EfiVirtAddr> for VirtAddr {
    fn from(addr: EfiVirtAddr) -> (ret: Self) {
        VirtAddr(addr.0)
    }
}

impl vstd::std_specs::convert::FromSpecImpl<EfiVirtAddr> for VirtAddr {
    open spec fn obeys_from_spec() -> bool {
        true
    }

    open spec fn from_spec(addr: EfiVirtAddr) -> Self {
        VirtAddr(addr.0)
    }
}

/// The `EFI_MEMORY_TYPE` type of the UEFI specification.
pub struct EfiMemoryType(pub u32);

/// The type of memory.
#[derive(Debug)]
pub enum MemoryType {
    /// Not usable memory.
    ReservedMemory,
    /// The code portions of a loaded UEFI application.
    ///
    /// After calling `EFI_BOOT_SERVICES.ExitBootServices()`, the UEFI OS
    /// Loader and/or OS may use this memory as they see fit. However, the UEFI
    /// OS loader that called `EFI_BOOT_SERVICES.ExitBootServices()` is
    /// utilizing one or more of these ranges.
    LoaderCode,
    /// The data portions of a loaded UEFI application and the default data
    /// allocation type used by a UEFI application to allocate pool memory.
    ///
    /// After calling `EFI_BOOT_SERVICES.ExitBootServices()`, the UEFI OS
    /// Loader and/or OS may use this memory as they see fit. However, the UEFI
    /// OS loader that called `EFI_BOOT_SERVICES.ExitBootServices()` is
    /// utilizing one or more of these ranges.
    LoaderData,
    /// The code portions of a loaded UEFI Boot Service Driver.
    ///
    /// After calling `EFI_BOOT_SERVICES.ExitBootServices()`, this memory is
    /// available for general use.
    BootServicesCode,
    /// The data portions of a loaded UEFI Boot Serve Driver, and the default
    /// data allocation type used by a UEFI Boot Service Driver to allocate
    /// pool memory.
    ///
    /// After calling `EFI_BOOT_SERVICES.ExitBootServices()`, this memory is
    /// available for general use.
    BootServicesData,
    /// The code portions of a loaded UEFI Runtime Driver.
    ///
    /// After calling `EFI_BOOT_SERVICES.ExitBootServices()`, the memory in
    /// this range is to be preserved by the UEFI OS loader and OS in the
    /// working and ACPI S1-S3 states.
    RuntimeServicesCode,
    /// The data portions of a loaded UEFI Runtime Driver and the default data
    /// allocation type used by a UEFI Runtime Driver to allocate pool memory.
    ///
    /// After calling `EFI_BOOT_SERVICES.ExitBootServices()`, the memory in
    /// this range is to be preserved by the UEFI OS loader and OS in the
    /// working and ACPI S1-S3 states.
    RuntimeServicesData,
    /// Free (unallocated) memory.
    ///
    /// After calling `EFI_BOOT_SERVICES.ExitBootServices()`, this memory is
    /// available for general use.
    ConventionalMemory,
    /// Memory in which errors have been detected.
    ///
    /// After calling `EFI_BOOT_SERVICES.ExitBootServices()`, this memory is
    /// not to be used.
    UnusableMemory,
    /// Memory that holds the ACPI tables.
    ///
    /// After calling `EFI_BOOT_SERVICES.ExitBootServices()`, this memory is to
    /// be preserved by the UEFI OS loader and OS until ACPI is enabled. Once
    /// ACPI is enabled, the memory in this range is available for general use.
    ACPIReclaimMemory,
    /// Address space reserved for use by the firmware.
    ///
    /// After calling `EFI_BOOT_SERVICES.ExitBootServices()`, this memory is to
    /// be preserved by the UEFI OS loader and OS in the working and ACPI S1-S3
    /// states.
    ACPIMemoryNVS,
    /// Used by system firmware to request that a memory-mapped IO region be
    /// mapped by the OS to a virtual address so it can be accessed by EFI
    /// runtime services.
    ///
    /// After calling `EFI_BOOT_SERVICES.ExitBootServices()`, this memory is
    /// not used by the OS. All system memory-mapped IO information should come
    /// from ACPI tables.
    MemoryMappedIO,
    /// System memory-mapped IO region that is used to translate memory cycles
    /// to IO cycles by the processor.
    ///
    /// After calling `EFI_BOOT_SERVICES.ExitBootServices()`, this memory is
    /// not used by the OS. All system memory-mapped IO port space information
    /// should come from ACPI tables.
    MemoryMappedIOPortSpace,
    /// Address space reserved by the firmware for code that is part of the
    /// processor.
    ///
    /// After calling `EFI_BOOT_SERVICES.ExitBootServices()`, this memory is to
    /// be preserved by the UEFI OS loader and OS in the working and ACPI S1-S4
    /// states. This memory may also have other attributes that are defined by
    /// the processor implementation.
    PalCode,
    /// A memory region that operates as `MemoryType::ConventionalMemory`.
    /// However, it happens to also support byte-addressable non-volatility.
    PersistentMemory,
    /// A memory region that represents unaccepted memory, that must be
    /// accepted by the boot target before it can be used. Unless otherwise
    /// noted, all other EFI memory types are accepted. For platforms that
    /// support unaccepted memory, all unaccepted valid memory will be reported
    /// as unaccepted in the memory map. Unreported physical address ranges
    /// must be treated as not-present memory.
    UnacceptedMemory,
    /// Unknown memory type.
    Unknown(u32),
}

/// The type of memory that a tag stands for.
pub open spec fn memory_type_of(tag: u32) -> MemoryType {
    match tag {
        0 => MemoryType::ReservedMemory,
        1 => MemoryType::LoaderCode,
        2 => MemoryType::LoaderData,
        3 => MemoryType::BootServicesCode,
        4 => MemoryType::BootServicesData,
        5 => MemoryType::RuntimeServicesCode,
        6 => MemoryType::RuntimeServicesData,
        7 => MemoryType::ConventionalMemory,
        8 => MemoryType::UnusableMemory,
        9 => MemoryType::ACPIReclaimMemory,
        10 => MemoryType::ACPIMemoryNVS,
        11 => MemoryType::MemoryMappedIO,
        12 => MemoryType::MemoryMappedIOPortSpace,
        13 => MemoryType::PalCode,
        14 => MemoryType::PersistentMemory,
        15 => MemoryType::UnacceptedMemory,
        _ => MemoryType::Unknown(tag),
    }
}

impl From<EfiMemoryType> for MemoryType {
    fn from(mem_type: EfiMemoryType) -> (ret: Self) {
        match mem_type.0 {
            0 => MemoryType::ReservedMemory,
            1 => MemoryType::LoaderCode,
            2 => MemoryType::LoaderData,
            3 => MemoryType::BootServicesCode,
            4 => MemoryType::BootServicesData,
            5 => MemoryType::RuntimeServicesCode,
            6 => MemoryType::RuntimeServicesData,
            7 => MemoryType::ConventionalMemory,
            8 => MemoryType::UnusableMemory,
            9 => MemoryType::ACPIReclaimMemory,
            10 => MemoryType::ACPIMemoryNVS,
            11 => MemoryType::MemoryMappedIO,
            12 => MemoryType::MemoryMappedIOPortSpace,
            13 => MemoryType::PalCode,
            14 => MemoryType::PersistentMemory,
            15 => MemoryType::UnacceptedMemory,
            ty => MemoryType::Unknown(ty),
        }
    }
}

impl vstd::std_specs::convert::FromSpecImpl<EfiMemoryType> for MemoryType {
    open spec fn obeys_from_spec() -> bool {
        true
    }

    open spec fn from_spec(mem_type: EfiMemoryType) -> Self {
        memory_type_of(mem_type.0)
    }
}

/// Memory of this type is available for general use once the boot services
/// have been left.
pub open spec fn is_available(memory_type: MemoryType) -> bool {
    memory_type is BootServicesCode || memory_type is BootServicesData
        || memory_type is ConventionalMemory || memory_type is ACPIReclaimMemory
}

/// Size of a page of a memory descriptor.
pub const EFI_PAGE_SIZE: u64 = 0x1000;

/// Size of the fields of an `EFI_MEMORY_DESCRIPTOR`.
pub const EFI_MEMORY_DESCRIPTOR_SIZE: usize = 40;

/// The `EFI_MEMORY_DESCRIPTOR` type of the UEFI specification, decoded.
#[derive(Debug, Clone, Copy)]
pub struct EfiMemoryDescriptor {
    pub memory_type: u32,
    pub physical_start: u64,
    pub virtual_start: u64,
    pub number_of_pages: u64,
    pub attribute: u64,
}

/// The memory descriptor that the 40 bytes from `at` on hold.
pub open spec fn memory_descriptor(map: Seq<u8>, at: int) -> EfiMemoryDescriptor {
    EfiMemoryDescriptor {
        memory_type: le_u32(map, at),
        physical_start: le_u64(map, at + 8),
        virtual_start: le_u64(map, at + 16),
        number_of_pages: le_u64(map, at + 24),
        attribute: le_u64(map, at + 32),
    }
}

/// The addresses of the block that a descriptor describes: its pages, of
/// `EFI_PAGE_SIZE` bytes each, from its physical start on.
pub open spec fn block(descriptor: EfiMemoryDescriptor) -> Interval {
    Interval {
        start: descriptor.physical_start as int,
        end: descriptor.physical_start + descriptor.number_of_pages * EFI_PAGE_SIZE - 1,
    }
}

/// What the set of available memory `set` becomes with one more
/// descriptor: an available block goes in, any other is passed over. A
/// block without pages, or one that reaches beyond the last address, has
/// invalid boundaries.
pub open spec fn with_descriptor(set: Seq<Interval>, descriptor: EfiMemoryDescriptor) -> Result<
    Seq<Interval>,
    Error,
> {
    if !is_available(memory_type_of(descriptor.memory_type)) {
        Ok(set)
    } else if !block(descriptor).valid() {
        Err(Error::RangeError(crate::range::Error::InvalidBoundaries))
    } else if insert_refused(set, block(descriptor)) {
        Err(Error::RangeError(crate::range::Error::FullRangeSet))
    } else {
        Ok(inserted(set, block(descriptor)))
    }
}

/// The set of available memory after the first `count` descriptors of the
/// memory map, each `descriptor_size` bytes after the one before, or the
/// first error on the way. A descriptor that the buffer does not hold in
/// full is one.
pub open spec fn available_after(map: Seq<u8>, descriptor_size: usize, count: int) -> Result<
    Seq<Interval>,
    Error,
>
    decreases count,
{
    if count <= 0 {
        Ok(Seq::empty())
    } else {
        match available_after(map, descriptor_size, count - 1) {
            Ok(set) => {
                let at = (count - 1) * descriptor_size;
                if at + EFI_MEMORY_DESCRIPTOR_SIZE > map.len() {
                    Err(Error::BufferTooSmall)
                } else {
                    with_descriptor(set, memory_descriptor(map, at))
                }
            },
            Err(err) => Err(err),
        }
    }
}

/// The set of available memory that a call of
/// `EFI_BOOT_SERVICES.GetMemoryMap()` describes, or the first error on the
/// way: `status` is what the call returned, `memory_map` the buffer that it
/// filled, `memory_map_size` the number of bytes that it filled in and
/// `descriptor_size` the distance from one descriptor to the next. As many
/// descriptors count as fit in full in the bytes filled in.
pub open spec fn available_memory(
    status: usize,
    memory_map: Seq<u8>,
    memory_map_size: usize,
    descriptor_size: usize,
) -> Result<Seq<Interval>, Error> {
    match status_result(status) {
        Ok(_) => if descriptor_size == 0 {
            Err(Error::BufferTooSmall)
        } else {
            available_after(memory_map, descriptor_size, memory_map_size as int / descriptor_size as int)
        },
        Err(err) => Err(err),
    }
}

/// Decodes the memory descriptor at the offset `at`.
fn read_memory_descriptor(map: &[u8], at: usize) -> (descriptor: EfiMemoryDescriptor)
    requires
        at + EFI_MEMORY_DESCRIPTOR_SIZE <= map@.len(),
    ensures
        descriptor == memory_descriptor(map@, at as int),
{
    assert(map@.len() == map.len());
    EfiMemoryDescriptor {
        memory_type: read_u32(map, at),
        physical_start: read_u64(map, at + 8),
        virtual_start: read_u64(map, at + 16),
        number_of_pages: read_u64(map, at + 24),
        attribute: read_u64(map, at + 32),
    }
}

/// Returns the range of the addresses of the block that a descriptor
/// describes.
fn block_range(descriptor: &EfiMemoryDescriptor) -> (res: Result<Range, crate::range::Error>)
    ensures
        block(*descriptor).valid() ==> res is Ok && res->Ok_0.wf() && res->Ok_0@ == block(
            *descriptor,
        ),
        !block(*descriptor).valid() ==> res == Err::<Range, crate::range::Error>(
            crate::range::Error::InvalidBoundaries,
        ),
{
    let start = descriptor.physical_start;
    // The size of a block may take more than 64 bits.
    let size = descriptor.number_of_pages as u128 * EFI_PAGE_SIZE as u128;
    if size == 0 {
        return Err(crate::range::Error::InvalidBoundaries);
    }
    let end = start as u128 + size - 1;
    if end > u64::MAX as u128 {
        return Err(crate::range::Error::InvalidBoundaries);
    }
    Range::new(start, end as u64)
}

/// Returns a tuple with a `RangeSet` containing the available memory
/// blocks and the map key of the current memory map. This tuple has the
/// form `(available_memory, map_key)`.
///
/// The call of `EFI_BOOT_SERVICES.GetMemoryMap()` itself, at the address
/// `get_memory_map` of the boot services table, is the caller's: `status`
/// is what it returned, `memory_map` the buffer handed to it, and
/// `memory_map_size`, `descriptor_size` and `map_key` what it wrote.
pub fn get_available_memory(
    status: EfiStatus,
    memory_map: &[u8],
    memory_map_size: usize,
    descriptor_size: usize,
    map_key: usize,
) -> (res: Result<(RangeSet, usize), Error>)
    ensures
        match res {
            Ok((set, key)) => {
                &&& set.wf()
                &&& key == map_key
                &&& available_memory(status.0, memory_map@, memory_map_size, descriptor_size)
                    == Ok::<Seq<Interval>, Error>(set@)
            },
            Err(err) => available_memory(status.0, memory_map@, memory_map_size, descriptor_size)
                == Err::<Seq<Interval>, Error>(err),
        },
{
    // Return with error in the case of warning and error status codes.
    match check_status(status) {
        Ok(()) => {},
        Err(err) => {
            return Err(err);
        },
    }
    if descriptor_size == 0 {
        return Err(Error::BufferTooSmall);
    }
    let count = memory_map_size / descriptor_size;
    // Fill the `RangeSet` to be returned.
    let mut ret = RangeSet::new();
    let mut idx: usize = 0;
    while idx < count
        invariant
            descriptor_size > 0,
            status_result(status.0) is Ok,
            count == memory_map_size as int / descriptor_size as int,
            idx <= count,
            ret.wf(),
            available_after(memory_map@, descriptor_size, idx as int) == Ok::<Seq<Interval>, Error>(
                ret@,
            ),
        decreases count - idx,
    {
        assert(idx * descriptor_size + descriptor_size <= memory_map_size) by (nonlinear_arith)
            requires
                idx < memory_map_size as int / descriptor_size as int,
                descriptor_size > 0,
        ;
        let at = idx * descriptor_size;
        let ghost next = available_after(memory_map@, descriptor_size, idx + 1);
        // Read the `EfiMemoryDescriptor`.
        if at > memory_map.len() || memory_map.len() - at < EFI_MEMORY_DESCRIPTOR_SIZE {
            proof {
                assert(next == Err::<Seq<Interval>, Error>(Error::BufferTooSmall));
                lemma_error_stays(memory_map@, descriptor_size, idx + 1, count as int);
            }
            return Err(Error::BufferTooSmall);
        }
        let descriptor = read_memory_descriptor(memory_map, at);
        proof {
            assert(next == with_descriptor(ret@, descriptor));
        }
        match add_descriptor(&mut ret, &descriptor) {
            Ok(()) => {},
            Err(err) => {
                proof {
                    lemma_error_stays(memory_map@, descriptor_size, idx + 1, count as int);
                }
                return Err(err);
            },
        }
        idx += 1;
    }
    Ok((ret, map_key))
}

/// Tells whether memory of the type that `tag` stands for is available for
/// general use once the boot services have been left.
fn is_available_tag(tag: u32) -> (available: bool)
    ensures
        available == is_available(memory_type_of(tag)),
{
    match MemoryType::from(EfiMemoryType(tag)) {
        MemoryType::BootServicesCode
        | MemoryType::BootServicesData
        | MemoryType::ConventionalMemory
        | MemoryType::ACPIReclaimMemory => true,
        _ => false,
    }
}

/// Adds the memory block of `descriptor` into `set` if the memory is
/// available.
fn add_descriptor(set: &mut RangeSet, descriptor: &EfiMemoryDescriptor) -> (res: Result<
    (),
    Error,
>)
    requires
        old(set).wf(),
    ensures
        match res {
            Ok(()) => final(set).wf() && with_descriptor(old(set)@, *descriptor) == Ok::<
                Seq<Interval>,
                Error,
            >(final(set)@),
            Err(err) => with_descriptor(old(set)@, *descriptor) == Err::<Seq<Interval>, Error>(
                err,
            ),
        },
{
    if !is_available_tag(descriptor.memory_type) {
        return Ok(());
    }
    let range = match block_range(descriptor) {
        Ok(range) => range,
        Err(err) => {
            return Err(Error::from(err));
        },
    };
    match set.insert(range) {
        Ok(()) => Ok(()),
        Err(err) => Err(Error::from(err)),
    }
}

/// Once a descriptor has given an error, the descriptors after it change
/// nothing.
proof fn lemma_error_stays(map: Seq<u8>, descriptor_size: usize, from: int, to: int)
    requires
        from <= to,
        available_after(map, descriptor_size, from) is Err,
    ensures
        available_after(map, descriptor_size, to) == available_after(map, descriptor_size, from),
    decreases to - from,
{
    if from < to {
        lemma_error_stays(map, descriptor_size, from, to - 1);
    }
}

} // verus!
