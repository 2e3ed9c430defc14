//! This module provides access to ACPI.

use vstd::prelude::*;
use vstd::slice::slice_subrange;

use crate::uefi::bytes::{le_u32, le_u64, lemma_le_changed, read_u32, read_u64, Memory};
use crate::uefi::utils::{add_bytes, byte_sum};
use crate::uefi::{agrees, ptr_of, Error, Ptr};

verus! {

/// Signature of the RSDP structure: the bytes of `"RSD PTR "`, as the
/// number that they hold low byte first.
pub const ACPI_RSDP_SIGNATURE: u64 = 0x2052_5450_2044_5352;

/// Size of the RSDP structure of ACPI 2.0.
pub const ACPI_RSDP_SIZE: usize = 36;

/// Size of the SDT header.
pub const ACPI_SDT_SIZE: usize = 36;

/// Root System Description Pointer (RSDP) structure of the ACPI 2.0 and later
/// specifications, decoded. The OEM identifier and the reserved bytes are
/// left out.
#[derive(Debug, Clone, Copy)]
pub struct AcpiRsdp20 {
    pub signature: u64,
    pub checksum: u8,
    pub revision: u8,
    pub rsdt_addr: u32,
    pub length: u32,
    pub xsdt_addr: u64,
    pub ext_checksum: u8,
}

/// The RSDP that the bytes of `bytes` hold.
pub open spec fn acpi_rsdp20(bytes: Seq<u8>) -> AcpiRsdp20 {
    AcpiRsdp20 {
        signature: le_u64(bytes, 0),
        checksum: bytes[8],
        revision: bytes[15],
        rsdt_addr: le_u32(bytes, 16),
        length: le_u32(bytes, 20),
        xsdt_addr: le_u64(bytes, 24),
        ext_checksum: bytes[32],
    }
}

/// Represents the Root System Description Pointer (RSDP) of ACPI 2.0+.
#[derive(Debug)]
pub struct Rsdp20 {
    rsdp20: AcpiRsdp20,
}

impl View for Rsdp20 {
    type V = AcpiRsdp20;

    closed spec fn view(&self) -> AcpiRsdp20 {
        self.rsdp20
    }
}

impl Rsdp20 {
    /// The RSDP found at `ptr`, or the first check that fails: the
    /// signature, then the sum of the bytes over the length that the
    /// structure declares, then the revision.
    pub open spec fn parse(mem: Memory, ptr: Ptr) -> Result<AcpiRsdp20, Error> {
        let rsdp20 = acpi_rsdp20(mem.at(ptr.0 as int, ACPI_RSDP_SIZE as int));
        if !mem.holds(ptr.0 as int, ACPI_RSDP_SIZE as int) {
            Err(Error::BufferTooSmall)
        } else if rsdp20.signature != ACPI_RSDP_SIGNATURE {
            Err(Error::InvalidSignature)
        } else if !mem.holds(ptr.0 as int, rsdp20.length as int) {
            Err(Error::BufferTooSmall)
        } else if byte_sum(mem.at(ptr.0 as int, rsdp20.length as int)) != 0 {
            Err(Error::InvalidCheckSum)
        } else if rsdp20.revision < 2 {
            Err(Error::InvalidRevision)
        } else {
            Ok(rsdp20)
        }
    }

    /// Creates a new `Rsdp20` from a given pointer.
    ///
    /// # Errors
    ///
    /// This function returns error if the pointer does not point to a valid
    /// RSDP 2.0+ structure, or if the window does not hold the structure.
    pub fn new(mem: &Memory, rsdp20_ptr: Ptr) -> (res: Result<Self, Error>)
        ensures
            agrees(res, Self::parse(*mem, rsdp20_ptr)),
    {
        let bytes = match mem.read(rsdp20_ptr.0, ACPI_RSDP_SIZE) {
            Some(bytes) => bytes,
            None => {
                return Err(Error::BufferTooSmall);
            },
        };
        let rsdp20 = AcpiRsdp20 {
            signature: read_u64(bytes, 0),
            checksum: bytes[8],
            revision: bytes[15],
            rsdt_addr: read_u32(bytes, 16),
            length: read_u32(bytes, 20),
            xsdt_addr: read_u64(bytes, 24),
            ext_checksum: bytes[32],
        };
        // Check table's signature.
        if rsdp20.signature != ACPI_RSDP_SIGNATURE {
            return Err(Error::InvalidSignature);
        }
        // Check table's checksum.
        let table = match mem.read(rsdp20_ptr.0, rsdp20.length as usize) {
            Some(table) => table,
            None => {
                return Err(Error::BufferTooSmall);
            },
        };
        if add_bytes(table) != 0 {
            return Err(Error::InvalidCheckSum);
        }
        // Check table's revision.
        if rsdp20.revision < 2 {
            return Err(Error::InvalidRevision);
        }
        Ok(Rsdp20 { rsdp20 })
    }

    /// Returns the decoded structure.
    pub fn table(&self) -> (table: AcpiRsdp20)
        ensures
            table == self@,
    {
        self.rsdp20
    }

    /// The XSDT that the RSDP points to, or the first check that fails.
    pub open spec fn spec_xsdt(&self, mem: Memory) -> Result<Seq<u64>, Error> {
        match ptr_of(self@.xsdt_addr) {
            Ok(ptr) => Xsdt::parse(mem, ptr),
            Err(err) => Err(err),
        }
    }

    /// Returns the Extended System Description Table (XSDT).
    pub fn xsdt(&self, mem: &Memory) -> (res: Result<Xsdt, Error>)
        ensures
            agrees(res, self.spec_xsdt(*mem)),
    {
        match Ptr::try_from(self.rsdp20.xsdt_addr) {
            Ok(ptr) => Xsdt::new(mem, ptr),
            Err(err) => Err(err),
        }
    }
}

/// System Description Table types.
#[derive(Debug, Clone, Copy)]
pub enum SdtType {
    Xsdt,
    Madt,
}

/// The signature of the tables of a type: the bytes of `"XSDT"` or of
/// `"APIC"`, as the number that they hold low byte first.
pub open spec fn sdt_signature(sdt_type: SdtType) -> u32 {
    match sdt_type {
        SdtType::Xsdt => 0x5444_5358,
        SdtType::Madt => 0x4349_5041,
    }
}

impl SdtType {
    /// Returns the signature of the SDT.
    pub fn signature(&self) -> (signature: u32)
        ensures
            signature == sdt_signature(*self),
    {
        match self {
            SdtType::Xsdt => 0x5444_5358,
            SdtType::Madt => 0x4349_5041,
        }
    }
}

/// System Description Table header of the ACPI specification, decoded. It is
/// common to all System Description Tables. The OEM identifier is left out.
#[derive(Debug, Clone, Copy)]
pub struct AcpiSdtHeader {
    pub signature: u32,
    pub length: u32,
    pub revision: u8,
    pub checksum: u8,
    pub oem_table_id: u64,
    pub oem_revision: u32,
    pub creator_id: u32,
    pub creator_revision: u32,
}

/// The SDT header that the bytes of `bytes` hold.
pub open spec fn acpi_sdt_header(bytes: Seq<u8>) -> AcpiSdtHeader {
    AcpiSdtHeader {
        signature: le_u32(bytes, 0),
        length: le_u32(bytes, 4),
        revision: bytes[8],
        checksum: bytes[9],
        oem_table_id: le_u64(bytes, 16),
        oem_revision: le_u32(bytes, 24),
        creator_id: le_u32(bytes, 28),
        creator_revision: le_u32(bytes, 32),
    }
}

/// The bytes of the table of type `sdt_type` at `ptr`, as many as its
/// header declares, or the first check that fails: the signature, then the
/// sum of the bytes.
pub open spec fn sdt_table(mem: Memory, ptr: Ptr, sdt_type: SdtType) -> Result<Seq<u8>, Error> {
    let hdr = acpi_sdt_header(mem.at(ptr.0 as int, ACPI_SDT_SIZE as int));
    if !mem.holds(ptr.0 as int, ACPI_SDT_SIZE as int) {
        Err(Error::BufferTooSmall)
    } else if hdr.signature != sdt_signature(sdt_type) {
        Err(Error::InvalidSignature)
    } else if !mem.holds(ptr.0 as int, hdr.length as int) {
        Err(Error::BufferTooSmall)
    } else if byte_sum(mem.at(ptr.0 as int, hdr.length as int)) != 0 {
        Err(Error::InvalidCheckSum)
    } else {
        Ok(mem.at(ptr.0 as int, hdr.length as int))
    }
}

/// Reads the table of type `sdt_type` at `ptr` and checks its signature,
/// then its checksum. Returns its header and its bytes.
fn read_sdt<'a>(mem: &Memory<'a>, sdt_ptr: Ptr, sdt_type: SdtType) -> (res: Result<
    (AcpiSdtHeader, &'a [u8]),
    Error,
>)
    ensures
        match res {
            Ok((hdr, table)) => {
                &&& sdt_table(*mem, sdt_ptr, sdt_type) == Ok::<Seq<u8>, Error>(table@)
                &&& hdr == acpi_sdt_header(mem.at(sdt_ptr.0 as int, ACPI_SDT_SIZE as int))
                &&& table@.len() == hdr.length
            },
            Err(err) => sdt_table(*mem, sdt_ptr, sdt_type) == Err::<Seq<u8>, Error>(err),
        },
{
    // Parse SDT header.
    let bytes = match mem.read(sdt_ptr.0, ACPI_SDT_SIZE) {
        Some(bytes) => bytes,
        None => {
            return Err(Error::BufferTooSmall);
        },
    };
    let hdr = AcpiSdtHeader {
        signature: read_u32(bytes, 0),
        length: read_u32(bytes, 4),
        revision: bytes[8],
        checksum: bytes[9],
        oem_table_id: read_u64(bytes, 16),
        oem_revision: read_u32(bytes, 24),
        creator_id: read_u32(bytes, 28),
        creator_revision: read_u32(bytes, 32),
    };
    // Check SDT header's signature.
    if hdr.signature != sdt_type.signature() {
        return Err(Error::InvalidSignature);
    }
    // Check SDT header's checksum.
    let table = match mem.read(sdt_ptr.0, hdr.length as usize) {
        Some(table) => table,
        None => {
            return Err(Error::BufferTooSmall);
        },
    };
    if add_bytes(table) != 0 {
        return Err(Error::InvalidCheckSum);
    }
    Ok((hdr, table))
}

impl AcpiSdtHeader {
    /// The header of the table of type `sdt_type` at `ptr`, or the first
    /// check that fails.
    pub open spec fn parse(mem: Memory, ptr: Ptr, sdt_type: SdtType) -> Result<
        AcpiSdtHeader,
        Error,
    > {
        match sdt_table(mem, ptr, sdt_type) {
            Ok(_) => Ok(acpi_sdt_header(mem.at(ptr.0 as int, ACPI_SDT_SIZE as int))),
            Err(err) => Err(err),
        }
    }

    /// Creates a new `AcpiSdtHeader` from a given pointer.
    ///
    /// # Errors
    ///
    /// This function returns error if the signature of the table does not
    /// match the provided `SdtType` or the checksum is invalid.
    pub fn new(mem: &Memory, sdt_ptr: Ptr, sdt_type: SdtType) -> (res: Result<Self, Error>)
        ensures
            res == Self::parse(*mem, sdt_ptr, sdt_type),
    {
        match read_sdt(mem, sdt_ptr, sdt_type) {
            Ok((hdr, _)) => Ok(hdr),
            Err(err) => Err(err),
        }
    }
}

/// Maximum number of entries in the XSDT.
pub const ACPI_XSDT_ENTRIES_LEN: usize = 32;

/// Represents the Extended System Description Table (XSDT).
#[derive(Debug)]
pub struct Xsdt {
    entries: [u64; ACPI_XSDT_ENTRIES_LEN],
    num_entries: usize,
}

impl View for Xsdt {
    type V = Seq<u64>;

    /// The table pointers in use, in table order.
    closed spec fn view(&self) -> Seq<u64> {
        self.entries@.subrange(0, self.num_entries as int)
    }
}

/// The table pointers that follow the header of an XSDT of the bytes
/// `table`, or what is wrong with its length.
pub open spec fn xsdt_entries(table: Seq<u8>) -> Result<Seq<u64>, Error> {
    let entries_length = table.len() - ACPI_SDT_SIZE;
    if entries_length < 0 || entries_length % 8 != 0 {
        Err(Error::InvalidAcpiData)
    } else if entries_length / 8 > ACPI_XSDT_ENTRIES_LEN {
        Err(Error::BufferTooSmall)
    } else {
        Ok(Seq::new((entries_length / 8) as nat, |i: int| le_u64(table, ACPI_SDT_SIZE + 8 * i)))
    }
}

/// The signature of the table at the address `entry`, or why it cannot be
/// read.
pub open spec fn signature_at(mem: Memory, entry: u64) -> Result<u32, Error> {
    match ptr_of(entry) {
        Ok(ptr) => if mem.holds(ptr.0 as int, 4) {
            Ok(le_u32(mem.at(ptr.0 as int, 4), 0))
        } else {
            Err(Error::BufferTooSmall)
        },
        Err(err) => Err(err),
    }
}

/// The MADT that the first of the entries from `from` on with the signature
/// of a MADT points to, or the first check that fails on the way.
pub open spec fn madt_from(mem: Memory, entries: Seq<u64>, from: int) -> Result<AcpiMadt, Error>
    decreases entries.len() - from,
{
    if from < 0 || from >= entries.len() {
        Err(Error::NotFound)
    } else {
        match signature_at(mem, entries[from]) {
            Ok(signature) => if signature == sdt_signature(SdtType::Madt) {
                Madt::parse(mem, Ptr(entries[from] as usize))
            } else {
                madt_from(mem, entries, from + 1)
            },
            Err(err) => Err(err),
        }
    }
}

impl Xsdt {
    /// At most `ACPI_XSDT_ENTRIES_LEN` entries are in use.
    #[verifier::type_invariant]
    spec fn wf(&self) -> bool {
        self.num_entries <= ACPI_XSDT_ENTRIES_LEN
    }

    /// The table pointers of the XSDT found at `ptr`, or the first check
    /// that fails.
    pub open spec fn parse(mem: Memory, ptr: Ptr) -> Result<Seq<u64>, Error> {
        match sdt_table(mem, ptr, SdtType::Xsdt) {
            Ok(table) => xsdt_entries(table),
            Err(err) => Err(err),
        }
    }

    /// Creates a new `Xsdt` from a given pointer.
    ///
    /// # Errors
    ///
    /// This function returns error if the pointer does not point to a valid
    /// XSDT.
    pub fn new(mem: &Memory, xsdt_ptr: Ptr) -> (res: Result<Self, Error>)
        ensures
            agrees(res, Self::parse(*mem, xsdt_ptr)),
    {
        // Parse header.
        let (_, table) = match read_sdt(mem, xsdt_ptr, SdtType::Xsdt) {
            Ok(found) => found,
            Err(err) => {
                return Err(err);
            },
        };
        // Calculate number of entries.
        if table.len() < ACPI_SDT_SIZE {
            return Err(Error::InvalidAcpiData);
        }
        let entries_length = table.len() - ACPI_SDT_SIZE;
        if entries_length % 8 != 0 {
            return Err(Error::InvalidAcpiData);
        }
        let num_entries = entries_length / 8;
        // Check that there is enough room for the entries in the fixed size
        // array.
        if num_entries > ACPI_XSDT_ENTRIES_LEN {
            return Err(Error::BufferTooSmall);
        }
        // Parse entries.
        let mut entries = [0u64;ACPI_XSDT_ENTRIES_LEN];
        let mut i: usize = 0;
        while i < num_entries
            invariant
                i <= num_entries <= ACPI_XSDT_ENTRIES_LEN,
                table@.len() == ACPI_SDT_SIZE + 8 * num_entries,
                forall|k: int| 0 <= k < i ==> entries@[k] == le_u64(table@, ACPI_SDT_SIZE + 8 * k),
            decreases num_entries - i,
        {
            entries[i] = read_u64(table, ACPI_SDT_SIZE + i * 8);
            i += 1;
        }
        let xsdt = Xsdt { entries, num_entries };
        assert(xsdt@ =~= xsdt_entries(table@)->Ok_0);
        Ok(xsdt)
    }

    /// Returns the table pointers in use.
    pub fn entries(&self) -> (out: &[u64])
        ensures
            out@ == self@,
    {
        proof {
            use_type_invariant(self);
        }
        slice_subrange(self.entries.as_slice(), 0, self.num_entries)
    }

    /// Returns the Multiple APIC Description Table (MADT): the table of the
    /// first entry that points to the signature of a MADT.
    ///
    /// # Errors
    ///
    /// This function returns `Error::NotFound` if no entry points to such a
    /// signature, the error of the first entry whose signature cannot be
    /// read, if it comes before, and else what `Madt::new` returns.
    pub fn madt(&self, mem: &Memory) -> (res: Result<Madt, Error>)
        ensures
            agrees(res, madt_from(*mem, self@, 0)),
    {
        proof {
            use_type_invariant(self);
        }
        let mut i: usize = 0;
        while i < self.num_entries
            invariant
                self.num_entries <= ACPI_XSDT_ENTRIES_LEN,
                i <= self.num_entries,
                madt_from(*mem, self@, i as int) == madt_from(*mem, self@, 0),
            decreases self.num_entries - i,
        {
            let entry = self.entries[i];
            assert(entry == self@[i as int]);
            // Look for a table with the correct signature.
            let ptr = match Ptr::try_from(entry) {
                Ok(ptr) => ptr,
                Err(err) => {
                    return Err(err);
                },
            };
            let signature = match mem.read(ptr.0, 4) {
                Some(bytes) => read_u32(bytes, 0),
                None => {
                    return Err(Error::BufferTooSmall);
                },
            };
            if signature == SdtType::Madt.signature() {
                return Madt::new(mem, ptr);
            }
            i += 1;
        }
        // If we reach this point, the table could not be found.
        Err(Error::NotFound)
    }
}

/// Size of the fields that follow the SDT header in the MADT.
pub const ACPI_MADT_FIELDS_SIZE: usize = 8;

/// Maximum number of entries in the MADT.
pub const ACPI_MADT_ENTRIES_LEN: usize = 256;

/// Size of a Processor Local APIC Structure.
pub const ACPI_MADT_LAPIC_SIZE: usize = 8;

/// Extra fields of the Multiple APIC Description Table (MADT) in the ACPI
/// specification.
#[derive(Debug, Clone, Copy)]
pub struct AcpiMadtFields {
    pub lapic_addr: u32,
    pub flags: u32,
}

/// Processor Local APIC Structure in the ACPI specification, without its
/// type and length.
pub struct AcpiMadtLapic {
    pub proc_uid: u8,
    pub apic_id: u8,
    pub flags: u32,
}

/// The Processor Local APIC Structure that the eight bytes from `at` on
/// hold.
pub open spec fn acpi_madt_lapic(table: Seq<u8>, at: int) -> AcpiMadtLapic {
    AcpiMadtLapic { proc_uid: table[at + 2], apic_id: table[at + 3], flags: le_u32(table, at + 4) }
}

/// Represents a Processor Local APIC Structure.
#[derive(Debug, Clone, Copy)]
pub struct MadtLapic {
    proc_uid: u8,
    apic_id: u8,
    flags: u32,
}

impl View for MadtLapic {
    type V = AcpiMadtLapic;

    closed spec fn view(&self) -> AcpiMadtLapic {
        AcpiMadtLapic { proc_uid: self.proc_uid, apic_id: self.apic_id, flags: self.flags }
    }
}

impl Default for MadtLapic {
    fn default() -> (lapic: Self)
        ensures
            lapic@ == (AcpiMadtLapic { proc_uid: 0, apic_id: 0, flags: 0 }),
    {
        MadtLapic { proc_uid: 0, apic_id: 0, flags: 0 }
    }
}

impl MadtLapic {
    /// Processor's UID.
    pub fn proc_uid(&self) -> (proc_uid: u8)
        ensures
            proc_uid == self@.proc_uid,
    {
        self.proc_uid
    }

    /// Processor's local APIC ID.
    pub fn acpi_id(&self) -> (apic_id: u8)
        ensures
            apic_id == self@.apic_id,
    {
        self.apic_id
    }

    /// Local APIC flags.
    ///
    /// Bit offset | Bit length | Flag
    /// ---------- | ---------- | ---------------
    /// 0          | 1          | Enabled
    /// 1          | 1          | Online Capable
    /// 2          | 30         | Reserved (zero)
    pub fn flags(&self) -> (flags: u32)
        ensures
            flags == self@.flags,
    {
        self.flags
    }
}

/// What a `Madt` holds: the fields that follow the header and the local
/// APIC structures, in table order.
pub struct AcpiMadt {
    pub fields: AcpiMadtFields,
    pub lapic: Seq<AcpiMadtLapic>,
}

/// The local APIC structures found so far, `found`, and those among the
/// records of `table` from `at` on, or the first thing that is wrong on
/// the way. Each record starts with its type and its length, a byte each,
/// and the next one starts `length` bytes after it; the records end where
/// the table ends. A record of type 0 is a local APIC structure. Wrong are,
/// in this order: a record with less than two bytes left in the table;
/// one more local APIC structure than `ACPI_MADT_ENTRIES_LEN`; a local APIC
/// structure with less than eight bytes left in the table; a record of
/// the length 0.
pub open spec fn madt_records(table: Seq<u8>, at: int, found: Seq<AcpiMadtLapic>) -> Result<
    Seq<AcpiMadtLapic>,
    Error,
>
    decreases
            if at < table.len() {
                table.len() - at
            } else {
                0
            },
{
    if at < 0 || at >= table.len() {
        Ok(found)
    } else if at + 2 > table.len() {
        Err(Error::InvalidAcpiData)
    } else if table[at] == 0 && found.len() >= ACPI_MADT_ENTRIES_LEN {
        Err(Error::BufferTooSmall)
    } else if table[at] == 0 && at + ACPI_MADT_LAPIC_SIZE > table.len() {
        Err(Error::InvalidAcpiData)
    } else if table[at + 1] == 0 {
        Err(Error::InvalidAcpiData)
    } else if table[at] == 0 {
        madt_records(table, at + table[at + 1], found.push(acpi_madt_lapic(table, at)))
    } else {
        madt_records(table, at + table[at + 1], found)
    }
}

/// Represents the Multiple APIC Description Table (MADT).
#[derive(Debug)]
pub struct Madt {
    fields: AcpiMadtFields,
    lapic_entries: [MadtLapic; ACPI_MADT_ENTRIES_LEN],
    num_lapic_entries: usize,
}

impl View for Madt {
    type V = AcpiMadt;

    closed spec fn view(&self) -> AcpiMadt {
        AcpiMadt {
            fields: self.fields,
            lapic: Seq::new(self.num_lapic_entries as nat, |i: int| self.lapic_entries@[i]@),
        }
    }
}

impl Madt {
    /// At most `ACPI_MADT_ENTRIES_LEN` entries are in use.
    #[verifier::type_invariant]
    spec fn wf(&self) -> bool {
        self.num_lapic_entries <= ACPI_MADT_ENTRIES_LEN
    }

    /// The MADT found at `ptr`, or the first check that fails.
    pub open spec fn parse(mem: Memory, ptr: Ptr) -> Result<AcpiMadt, Error> {
        match sdt_table(mem, ptr, SdtType::Madt) {
            Ok(table) => if table.len() < ACPI_SDT_SIZE + ACPI_MADT_FIELDS_SIZE {
                Err(Error::InvalidAcpiData)
            } else {
                match madt_records(
                    table,
                    (ACPI_SDT_SIZE + ACPI_MADT_FIELDS_SIZE) as int,
                    Seq::empty(),
                ) {
                    Ok(lapic) => Ok(
                        AcpiMadt {
                            fields: AcpiMadtFields {
                                lapic_addr: le_u32(table, ACPI_SDT_SIZE as int),
                                flags: le_u32(table, ACPI_SDT_SIZE + 4),
                            },
                            lapic,
                        },
                    ),
                    Err(err) => Err(err),
                }
            },
            Err(err) => Err(err),
        }
    }

    /// Creates a new `Madt` from a given pointer.
    ///
    /// # Errors
    ///
    /// This function returns error if the pointer does not point to a valid
    /// MADT.
    pub fn new(mem: &Memory, madt_ptr: Ptr) -> (res: Result<Madt, Error>)
        ensures
            agrees(res, Self::parse(*mem, madt_ptr)),
    {
        // Parse header.
        let (_, table) = match read_sdt(mem, madt_ptr, SdtType::Madt) {
            Ok(found) => found,
            Err(err) => {
                return Err(err);
            },
        };
        if table.len() < ACPI_SDT_SIZE + ACPI_MADT_FIELDS_SIZE {
            return Err(Error::InvalidAcpiData);
        }
        // Parse fields.
        let fields = AcpiMadtFields {
            lapic_addr: read_u32(table, ACPI_SDT_SIZE),
            flags: read_u32(table, ACPI_SDT_SIZE + 4),
        };
        // Parse entries.
        let mut num_lapic_entries: usize = 0;
        let mut lapic_entries = [MadtLapic { proc_uid: 0, apic_id: 0, flags: 0 };
            ACPI_MADT_ENTRIES_LEN];
        let mut at: usize = ACPI_SDT_SIZE + ACPI_MADT_FIELDS_SIZE;
        let end: usize = table.len();
        let ghost first = (ACPI_SDT_SIZE + ACPI_MADT_FIELDS_SIZE) as int;
        let ghost mut found = Seq::<AcpiMadtLapic>::empty();
        while at < end
            invariant
                end == table@.len(),
                first == ACPI_SDT_SIZE + ACPI_MADT_FIELDS_SIZE,
                first <= table@.len(),
                sdt_table(*mem, madt_ptr, SdtType::Madt) == Ok::<Seq<u8>, Error>(table@),
                num_lapic_entries <= ACPI_MADT_ENTRIES_LEN,
                found.len() == num_lapic_entries,
                forall|k: int| 0 <= k < num_lapic_entries ==> lapic_entries@[k]@ == found[k],
                madt_records(table@, at as int, found) == madt_records(
                    table@,
                    first,
                    Seq::empty(),
                ),
            decreases end - at,
        {
            let ghost here = at as int;
            let ghost before = found;
            if end - at < 2 {
                return Err(Error::InvalidAcpiData);
            }
            let ty = table[at];
            let length = table[at + 1];
            // LAPIC.
            if ty == 0 {
                if num_lapic_entries >= ACPI_MADT_ENTRIES_LEN {
                    return Err(Error::BufferTooSmall);
                }
                if end - at < ACPI_MADT_LAPIC_SIZE {
                    return Err(Error::InvalidAcpiData);
                }
                if length == 0 {
                    return Err(Error::InvalidAcpiData);
                }
                lapic_entries[num_lapic_entries] = MadtLapic {
                    proc_uid: table[at + 2],
                    apic_id: table[at + 3],
                    flags: read_u32(table, at + 4),
                };
                num_lapic_entries += 1;
                proof {
                    found = found.push(acpi_madt_lapic(table@, at as int));
                }
            } else if length == 0 {
                return Err(Error::InvalidAcpiData);
            }
            proof {
                assert(madt_records(table@, here, before) == madt_records(
                    table@,
                    here + length,
                    found,
                ));
                if length >= end - here {
                    assert(madt_records(table@, here + length, found) == Ok::<
                        Seq<AcpiMadtLapic>,
                        Error,
                    >(found));
                    assert(madt_records(table@, end as int, found) == Ok::<
                        Seq<AcpiMadtLapic>,
                        Error,
                    >(found));
                }
            }
            // The next record starts `length` bytes on, or the table ends
            // before.
            if length as usize >= end - at {
                at = end;
            } else {
                at = at + length as usize;
            }
        }
        let madt = Madt { fields, lapic_entries, num_lapic_entries };
        assert(madt@.lapic =~= found);
        Ok(madt)
    }

    /// Local Interrupt Controller Address. In other words, the 32-bit physical
    /// address at which each processor can access its local interrupt
    /// controller.
    pub fn lapic_addr(&self) -> (lapic_addr: u32)
        ensures
            lapic_addr == self@.fields.lapic_addr,
    {
        self.fields.lapic_addr
    }

    /// Multiple ACPI flags.
    ///
    /// Bit offset | Bit length | Flag
    /// ---------- | ---------- | ---------------
    /// 0          | 1          | PCAT_COMPAT
    /// 1          | 31         | Reserved (zero)
    pub fn flags(&self) -> (flags: u32)
        ensures
            flags == self@.fields.flags,
    {
        self.fields.flags
    }

    /// Returns the detected local APIC structures.
    pub fn lapic(&self) -> (out: &[MadtLapic])
        ensures
            out@.map_values(|lapic: MadtLapic| lapic@) == self@.lapic,
    {
        proof {
            use_type_invariant(self);
        }
        let out = slice_subrange(self.lapic_entries.as_slice(), 0, self.num_lapic_entries);
        assert(out@.map_values(|lapic: MadtLapic| lapic@) =~= self@.lapic);
        out
    }
}

/// What `mem` shows with the byte at the address `addr` changed to `value`.
pub open spec fn changed_at(mem: Memory, changed: Memory, addr: int, value: u8) -> bool {
    &&& mem.holds(addr, 1)
    &&& changed.base() == mem.base()
    &&& changed.bytes() == mem.bytes().update(addr - mem.base(), value)
    &&& value != mem.bytes()[addr - mem.base()]
}

/// An RSDP whose signature is right is turned down for its signature once
/// any byte of the signature is changed, whatever its checksum has become.
pub proof fn lemma_rsdp20_signature_byte(
    mem: Memory,
    changed: Memory,
    ptr: Ptr,
    k: int,
    value: u8,
)
    requires
        mem.holds(ptr.0 as int, ACPI_RSDP_SIZE as int),
        acpi_rsdp20(mem.at(ptr.0 as int, ACPI_RSDP_SIZE as int)).signature == ACPI_RSDP_SIGNATURE,
        0 <= k < 8,
        changed_at(mem, changed, ptr.0 + k, value),
    ensures
        Rsdp20::parse(changed, ptr) == Err::<AcpiRsdp20, Error>(Error::InvalidSignature),
{
    let bytes = mem.at(ptr.0 as int, ACPI_RSDP_SIZE as int);
    assert(changed.at(ptr.0 as int, ACPI_RSDP_SIZE as int) =~= bytes.update(k, value));
    lemma_le_changed(bytes, 0, k, value);
}

/// An RSDP that validates is turned down for its checksum once any one of
/// its bytes after the signature and outside the length is changed.
pub proof fn lemma_rsdp20_checksum_byte(
    mem: Memory,
    changed: Memory,
    ptr: Ptr,
    k: int,
    value: u8,
)
    requires
        Rsdp20::parse(mem, ptr) is Ok,
        8 <= k < acpi_rsdp20(mem.at(ptr.0 as int, ACPI_RSDP_SIZE as int)).length,
        !(20 <= k < 24),
        changed_at(mem, changed, ptr.0 + k, value),
    ensures
        Rsdp20::parse(changed, ptr) == Err::<AcpiRsdp20, Error>(Error::InvalidCheckSum),
{
    let head = mem.at(ptr.0 as int, ACPI_RSDP_SIZE as int);
    let length = acpi_rsdp20(head).length as int;
    let table = mem.at(ptr.0 as int, length);
    let head2 = changed.at(ptr.0 as int, ACPI_RSDP_SIZE as int);
    assert(changed.at(ptr.0 as int, length) =~= table.update(k, value));
    assert forall|i: int| 0 <= i < 8 || 20 <= i < 24 implies head2[i] == head[i] by {}
    assert(le_u64(head2, 0) == le_u64(head, 0));
    assert(le_u32(head2, 20) == le_u32(head, 20));
    crate::uefi::utils::lemma_changed_byte_breaks_sum(table, k, value);
}

/// A system description table whose signature is right is turned down for
/// its signature once any byte of the signature is changed, whatever its
/// checksum has become.
pub proof fn lemma_sdt_signature_byte(
    mem: Memory,
    changed: Memory,
    ptr: Ptr,
    sdt_type: SdtType,
    k: int,
    value: u8,
)
    requires
        mem.holds(ptr.0 as int, ACPI_SDT_SIZE as int),
        acpi_sdt_header(mem.at(ptr.0 as int, ACPI_SDT_SIZE as int)).signature == sdt_signature(
            sdt_type,
        ),
        0 <= k < 4,
        changed_at(mem, changed, ptr.0 + k, value),
    ensures
        sdt_table(changed, ptr, sdt_type) == Err::<Seq<u8>, Error>(Error::InvalidSignature),
{
    let bytes = mem.at(ptr.0 as int, ACPI_SDT_SIZE as int);
    assert(changed.at(ptr.0 as int, ACPI_SDT_SIZE as int) =~= bytes.update(k, value));
    lemma_le_changed(bytes, 0, k, value);
}

/// A table whose bytes add up to zero is turned down for its checksum once
/// any one of its bytes after the signature and outside the length is
/// changed.
pub proof fn lemma_sdt_checksum_byte(
    mem: Memory,
    changed: Memory,
    ptr: Ptr,
    sdt_type: SdtType,
    k: int,
    value: u8,
)
    requires
        sdt_table(mem, ptr, sdt_type) is Ok,
        8 <= k < acpi_sdt_header(mem.at(ptr.0 as int, ACPI_SDT_SIZE as int)).length,
        changed_at(mem, changed, ptr.0 + k, value),
    ensures
        sdt_table(changed, ptr, sdt_type) == Err::<Seq<u8>, Error>(Error::InvalidCheckSum),
{
    let head = mem.at(ptr.0 as int, ACPI_SDT_SIZE as int);
    let length = acpi_sdt_header(head).length as int;
    let table = mem.at(ptr.0 as int, length);
    let head2 = changed.at(ptr.0 as int, ACPI_SDT_SIZE as int);
    assert(changed.at(ptr.0 as int, length) =~= table.update(k, value));
    assert forall|i: int| 0 <= i < 8 implies head2[i] == head[i] by {}
    assert(le_u32(head2, 0) == le_u32(head, 0));
    assert(le_u32(head2, 4) == le_u32(head, 4));
    crate::uefi::utils::lemma_changed_byte_breaks_sum(table, k, value);
}

} // verus!
