//! UEFI parsing primitives.

use vstd::prelude::*;
use vstd::slice::slice_subrange;

pub mod acpi;
pub mod bytes;
pub mod mem;
pub mod status;
pub mod utils;

pub use status::{EfiStatus, Status, StatusError, StatusWarning};

use bytes::{le_u16, le_u32, le_u64, lemma_le_changed, read_u16, read_u32, read_u64, Memory};
use utils::{spec_crc32, table_crc32, without_crc32};

verus! {

/// Represents an UEFI error.
#[derive(Debug)]
pub enum Error {
    /// The signature of the table does not match the expected one.
    InvalidSignature,
    /// The checksum of the table does not match the expected one.
    InvalidCheckSum,
    /// The revision of the parsed table is not valid.
    InvalidRevision,
    /// Invalid status code conversion.
    InvalidStatusConversion,
    /// The size of the memory address does not match the target architecture.
    InvalidAddressSize,
    /// Could not parse ACPI structures.
    InvalidAcpiData,
    /// The fixed size buffer is too small, or the window on memory does not
    /// hold what is to be read.
    BufferTooSmall,
    /// The entity could not be found.
    NotFound,
    /// The status code returned by an EFI interface is an error.
    StatusError(StatusError),
    /// The status code returned by an EFI interface is a warning.
    StatusWarning(StatusWarning),
    /// Error related to a memory map operation.
    RangeError(crate::range::Error),
}

impl From<crate::range::Error> for Error {
    fn from(err: crate::range::Error) -> (ret: Self) {
        Error::RangeError(err)
    }
}

impl vstd::std_specs::convert::FromSpecImpl<crate::range::Error> for Error {
    open spec fn obeys_from_spec() -> bool {
        true
    }

    open spec fn from_spec(err: crate::range::Error) -> Self {
        Error::RangeError(err)
    }
}

impl From<StatusWarning> for Error {
    fn from(warn: StatusWarning) -> (ret: Self) {
        Error::StatusWarning(warn)
    }
}

impl vstd::std_specs::convert::FromSpecImpl<StatusWarning> for Error {
    open spec fn obeys_from_spec() -> bool {
        true
    }

    open spec fn from_spec(warn: StatusWarning) -> Self {
        Error::StatusWarning(warn)
    }
}

impl From<StatusError> for Error {
    fn from(err: StatusError) -> (ret: Self) {
        Error::StatusError(err)
    }
}

impl vstd::std_specs::convert::FromSpecImpl<StatusError> for Error {
    open spec fn obeys_from_spec() -> bool {
        true
    }

    open spec fn from_spec(err: StatusError) -> Self {
        Error::StatusError(err)
    }
}

/// Represents an UEFI handle. It is equivalent to the `EFI_HANDLE` type of the
/// UEFI specification.
#[derive(Debug, Clone, Copy)]
pub struct Handle(usize);

impl View for Handle {
    type V = usize;

    closed spec fn view(&self) -> usize {
        self.0
    }
}

impl Handle {
    /// Wraps the handle that the firmware passed to the entry point.
    pub fn new(raw: usize) -> (handle: Self)
        ensures
            handle@ == raw,
    {
        Handle(raw)
    }
}

impl core::ops::Deref for Handle {
    type Target = usize;

    fn deref(&self) -> (raw: &usize)
        ensures
            *raw == self@,
    {
        &self.0
    }
}

/// Represents a generic pointer.
#[derive(Debug, Clone, Copy)]
pub struct Ptr(pub usize);

impl Default for Ptr {
    fn default() -> (ptr: Self)
        ensures
            ptr.0 == 0,
    {
        Ptr(0)
    }
}

impl From<usize> for Ptr {
    fn from(addr: usize) -> (ret: Self) {
        Ptr(addr)
    }
}

impl vstd::std_specs::convert::FromSpecImpl<usize> for Ptr {
    open spec fn obeys_from_spec() -> bool {
        true
    }

    open spec fn from_spec(addr: usize) -> Self {
        Ptr(addr)
    }
}

impl TryFrom<u64> for Ptr {
    type Error = Error;

    fn try_from(addr: u64) -> (res: Result<Self, Error>) {
        if addr > usize::MAX as u64 {
            Err(Error::InvalidAddressSize)
        } else {
            Ok(Ptr(addr as usize))
        }
    }
}

impl vstd::std_specs::convert::TryFromSpecImpl<u64> for Ptr {
    open spec fn obeys_try_from_spec() -> bool {
        true
    }

    open spec fn try_from_spec(addr: u64) -> Result<Self, Error> {
        ptr_of(addr)
    }
}

/// The pointer to the address `addr`, where the machine's addresses reach
/// that far.
pub open spec fn ptr_of(addr: u64) -> Result<Ptr, Error> {
    if addr <= usize::MAX {
        Ok(Ptr(addr as usize))
    } else {
        Err(Error::InvalidAddressSize)
    }
}

/// `res` is what `model` says: the value whose view `model` gives, or the
/// error that `model` gives.
pub open spec fn agrees<T: View>(res: Result<T, Error>, model: Result<T::V, Error>) -> bool {
    match res {
        Ok(value) => model == Ok::<T::V, Error>(value@),
        Err(err) => model == Err::<T::V, Error>(err),
    }
}

/// What a status word that an EFI interface returned means for the call:
/// success, or the warning or error that the word stands for.
pub open spec fn status_result(word: usize) -> Result<(), Error> {
    match status::decode(word) {
        Status::Success => Ok(()),
        Status::Warning(warn) => Err(Error::StatusWarning(warn)),
        Status::Error(err) => Err(Error::StatusError(err)),
    }
}

/// Turns the status code returned by an EFI interface into a result:
/// warnings and errors both end the call.
pub fn check_status(status: EfiStatus) -> (res: Result<(), Error>)
    ensures
        res == status_result(status.0),
{
    match Status::from(status) {
        Status::Success => Ok(()),
        Status::Warning(warn) => Err(Error::StatusWarning(warn)),
        Status::Error(err) => Err(Error::StatusError(err)),
    }
}

/// The `EFI_TABLE_HEADER` type of the UEFI specification.
#[derive(Debug, Clone, Copy)]
pub struct EfiTableHeader {
    pub signature: u64,
    pub revision: u32,
    pub header_size: u32,
    pub crc32: u32,
    pub reserved: u32,
}

/// Size of an `EFI_TABLE_HEADER`.
pub const EFI_TABLE_HEADER_SIZE: usize = 24;

/// The header that the first bytes of a firmware table hold.
pub open spec fn table_header(table: Seq<u8>) -> EfiTableHeader {
    EfiTableHeader {
        signature: le_u64(table, 0),
        revision: le_u32(table, 8),
        header_size: le_u32(table, 12),
        crc32: le_u32(table, 16),
        reserved: le_u32(table, 20),
    }
}

/// Decodes the header of a firmware table.
fn read_table_header(table: &[u8]) -> (hdr: EfiTableHeader)
    requires
        table@.len() >= EFI_TABLE_HEADER_SIZE,
    ensures
        hdr == table_header(table@),
{
    EfiTableHeader {
        signature: read_u64(table, 0),
        revision: read_u32(table, 8),
        header_size: read_u32(table, 12),
        crc32: read_u32(table, 16),
        reserved: read_u32(table, 20),
    }
}

/// The bytes of the firmware table of `size` bytes at `ptr`, or the first
/// check that fails: the window holds the bytes; they start with
/// `signature`; their CRC-32, taken with the CRC-32 field as zero, is the one
/// that the header records.
pub open spec fn firmware_table(mem: Memory, ptr: Ptr, size: usize, signature: u64) -> Result<
    Seq<u8>,
    Error,
> {
    let table = mem.at(ptr.0 as int, size as int);
    if !mem.holds(ptr.0 as int, size as int) {
        Err(Error::BufferTooSmall)
    } else if table_header(table).signature != signature {
        Err(Error::InvalidSignature)
    } else if spec_crc32(without_crc32(table)) != table_header(table).crc32 {
        Err(Error::InvalidCheckSum)
    } else {
        Ok(table)
    }
}

/// A firmware table whose signature is right is turned down for its
/// signature once any byte of the signature is changed, whatever its CRC-32
/// has become.
pub proof fn lemma_firmware_table_signature_byte(
    mem: Memory,
    changed: Memory,
    ptr: Ptr,
    size: usize,
    signature: u64,
    k: int,
    value: u8,
)
    requires
        size >= EFI_TABLE_HEADER_SIZE,
        mem.holds(ptr.0 as int, size as int),
        table_header(mem.at(ptr.0 as int, size as int)).signature == signature,
        0 <= k < 8,
        acpi::changed_at(mem, changed, ptr.0 + k, value),
    ensures
        firmware_table(changed, ptr, size, signature) == Err::<Seq<u8>, Error>(
            Error::InvalidSignature,
        ),
{
    let bytes = mem.at(ptr.0 as int, size as int);
    assert(changed.at(ptr.0 as int, size as int) =~= bytes.update(k, value));
    lemma_le_changed(bytes, 0, k, value);
}

/// Reads the firmware table of `size` bytes at `ptr` and checks its
/// signature, then its CRC-32.
fn read_firmware_table<'a>(mem: &Memory<'a>, ptr: Ptr, size: usize, signature: u64) -> (res:
    Result<&'a [u8], Error>)
    requires
        size >= EFI_TABLE_HEADER_SIZE,
    ensures
        match res {
            Ok(table) => firmware_table(*mem, ptr, size, signature) == Ok::<Seq<u8>, Error>(
                table@,
            ),
            Err(err) => firmware_table(*mem, ptr, size, signature) == Err::<Seq<u8>, Error>(err),
        },
{
    let table = match mem.read(ptr.0, size) {
        Some(table) => table,
        None => {
            return Err(Error::BufferTooSmall);
        },
    };
    let hdr = read_table_header(table);
    // Check table's signature.
    if hdr.signature != signature {
        return Err(Error::InvalidSignature);
    }
    // Check table's CRC32.
    if table_crc32(table) != hdr.crc32 {
        return Err(Error::InvalidCheckSum);
    }
    Ok(table)
}

/// The signature of an `EFI_SYSTEM_TABLE`.
pub const EFI_SYSTEM_TABLE_SIGNATURE: u64 = 0x5453595320494249;

/// Size of an `EFI_SYSTEM_TABLE` whose pointers and handles take eight
/// bytes.
pub const EFI_SYSTEM_TABLE_SIZE: usize = 120;

/// The `EFI_SYSTEM_TABLE` type of the UEFI specification, decoded: pointers,
/// handles and the entry count as the 64-bit numbers that the table holds.
#[derive(Debug, Clone, Copy)]
pub struct EfiSystemTable {
    pub hdr: EfiTableHeader,
    pub firmware_vendor: u64,
    pub firmware_revision: u32,
    pub console_in_handle: u64,
    pub cons_in: u64,
    pub console_out_handle: u64,
    pub cons_out: u64,
    pub standard_error_handle: u64,
    pub std_err: u64,
    pub runtime_services: u64,
    pub boot_services: u64,
    pub number_of_table_entries: u64,
    pub configuration_table: u64,
}

/// The system table that the bytes of `table` hold.
pub open spec fn system_table(table: Seq<u8>) -> EfiSystemTable {
    EfiSystemTable {
        hdr: table_header(table),
        firmware_vendor: le_u64(table, 24),
        firmware_revision: le_u32(table, 32),
        console_in_handle: le_u64(table, 40),
        cons_in: le_u64(table, 48),
        console_out_handle: le_u64(table, 56),
        cons_out: le_u64(table, 64),
        standard_error_handle: le_u64(table, 72),
        std_err: le_u64(table, 80),
        runtime_services: le_u64(table, 88),
        boot_services: le_u64(table, 96),
        number_of_table_entries: le_u64(table, 104),
        configuration_table: le_u64(table, 112),
    }
}

/// Represents the EFI System Table. It provides access to the boot and runtime
/// services.
#[derive(Debug)]
pub struct SystemTable {
    /// The `EFI_SYSTEM_TABLE` structure provided by the firmware.
    system_table: EfiSystemTable,
}

impl View for SystemTable {
    type V = EfiSystemTable;

    closed spec fn view(&self) -> EfiSystemTable {
        self.system_table
    }
}

impl SystemTable {
    /// The system table found at `ptr`, or the first check that fails.
    pub open spec fn parse(mem: Memory, ptr: Ptr) -> Result<EfiSystemTable, Error> {
        match firmware_table(mem, ptr, EFI_SYSTEM_TABLE_SIZE, EFI_SYSTEM_TABLE_SIGNATURE) {
            Ok(table) => Ok(system_table(table)),
            Err(err) => Err(err),
        }
    }

    /// Creates a new `SystemTable` from a given pointer `system_table_ptr`.
    /// Usually this pointer is the `system_table` argument of the UEFI entry
    /// point.
    ///
    /// # Errors
    ///
    /// If the window does not hold the table the function returns
    /// `Error::BufferTooSmall`. If the signature or the CRC32 of the table do
    /// not match the expected values the function returns
    /// `Error::InvalidSignature` or `Error::InvalidCheckSum`.
    pub fn new(mem: &Memory, system_table_ptr: Ptr) -> (res: Result<Self, Error>)
        ensures
            agrees(res, Self::parse(*mem, system_table_ptr)),
    {
        let table = match read_firmware_table(
            mem,
            system_table_ptr,
            EFI_SYSTEM_TABLE_SIZE,
            EFI_SYSTEM_TABLE_SIGNATURE,
        ) {
            Ok(table) => table,
            Err(err) => {
                return Err(err);
            },
        };
        let system_table = EfiSystemTable {
            hdr: read_table_header(table),
            firmware_vendor: read_u64(table, 24),
            firmware_revision: read_u32(table, 32),
            console_in_handle: read_u64(table, 40),
            cons_in: read_u64(table, 48),
            console_out_handle: read_u64(table, 56),
            cons_out: read_u64(table, 64),
            standard_error_handle: read_u64(table, 72),
            std_err: read_u64(table, 80),
            runtime_services: read_u64(table, 88),
            boot_services: read_u64(table, 96),
            number_of_table_entries: read_u64(table, 104),
            configuration_table: read_u64(table, 112),
        };
        Ok(SystemTable { system_table })
    }

    /// Returns the decoded table.
    pub fn table(&self) -> (table: EfiSystemTable)
        ensures
            table == self@,
    {
        self.system_table
    }

    /// The boot services table that the system table points to, or the
    /// first check that fails.
    pub open spec fn spec_boot_services(&self, mem: Memory) -> Result<EfiBootServices, Error> {
        match ptr_of(self@.boot_services) {
            Ok(ptr) => BootServices::parse(mem, ptr),
            Err(err) => Err(err),
        }
    }

    /// Returns the boot services.
    pub fn boot_services(&self, mem: &Memory) -> (res: Result<BootServices, Error>)
        ensures
            agrees(res, self.spec_boot_services(*mem)),
    {
        match Ptr::try_from(self.system_table.boot_services) {
            Ok(ptr) => BootServices::new(mem, ptr),
            Err(err) => Err(err),
        }
    }

    /// The configuration tables that the system table points to, or the
    /// first check that fails: the count of entries comes before the
    /// pointer.
    pub open spec fn spec_configuration_tables(&self, mem: Memory) -> Result<
        Seq<EfiConfigurationTable>,
        Error,
    > {
        if self@.number_of_table_entries > EFI_CONFIGURATION_TABLES_LEN {
            Err(Error::BufferTooSmall)
        } else {
            match ptr_of(self@.configuration_table) {
                Ok(ptr) => ConfigurationTables::parse(
                    mem,
                    ptr,
                    self@.number_of_table_entries as usize,
                ),
                Err(err) => Err(err),
            }
        }
    }

    /// Returns the configuration tables.
    pub fn configuration_tables(&self, mem: &Memory) -> (res: Result<ConfigurationTables, Error>)
        ensures
            agrees(res, self.spec_configuration_tables(*mem)),
    {
        if self.system_table.number_of_table_entries > EFI_CONFIGURATION_TABLES_LEN as u64 {
            return Err(Error::BufferTooSmall);
        }
        match Ptr::try_from(self.system_table.configuration_table) {
            Ok(ptr) => ConfigurationTables::new(
                mem,
                ptr,
                self.system_table.number_of_table_entries as usize,
            ),
            Err(err) => Err(err),
        }
    }
}

/// The signature of an EFI Boot Services Table.
pub const EFI_BOOT_SERVICES_SIGNATURE: u64 = 0x56524553544f4f42;

/// Size of an `EFI_BOOT_SERVICES` table: the header and 44 entry points of
/// eight bytes.
pub const EFI_BOOT_SERVICES_SIZE: usize = 376;

/// The `EFI_BOOT_SERVICES` type of the UEFI specification, decoded: the
/// header and the addresses of the entry points that this crate's callers
/// use.
#[derive(Debug, Clone, Copy)]
pub struct EfiBootServices {
    pub hdr: EfiTableHeader,
    /// `GetMemoryMap(size*, buffer*, map_key*, descriptor_size*,
    /// descriptor_version*) -> status`.
    pub get_memory_map: u64,
    /// `ExitBootServices(image_handle, map_key) -> status`.
    pub exit_boot_services: u64,
    /// `GetNextMonotonicCount(count*) -> status`.
    pub get_next_monotonic_count: u64,
}

/// The boot services table that the bytes of `table` hold.
pub open spec fn boot_services_table(table: Seq<u8>) -> EfiBootServices {
    EfiBootServices {
        hdr: table_header(table),
        get_memory_map: le_u64(table, 56),
        exit_boot_services: le_u64(table, 232),
        get_next_monotonic_count: le_u64(table, 240),
    }
}

/// Represents the EFI Boot Services Table. It provides access to the boot
/// services.
#[derive(Debug)]
pub struct BootServices {
    /// The `EFI_BOOT_SERVICES` structure provided by the firmware.
    boot_services: EfiBootServices,
}

impl View for BootServices {
    type V = EfiBootServices;

    closed spec fn view(&self) -> EfiBootServices {
        self.boot_services
    }
}

impl BootServices {
    /// The boot services table found at `ptr`, or the first check that
    /// fails.
    pub open spec fn parse(mem: Memory, ptr: Ptr) -> Result<EfiBootServices, Error> {
        match firmware_table(mem, ptr, EFI_BOOT_SERVICES_SIZE, EFI_BOOT_SERVICES_SIGNATURE) {
            Ok(table) => Ok(boot_services_table(table)),
            Err(err) => Err(err),
        }
    }

    /// Creates a new `BootServices` from a given pointer `boot_services_ptr`.
    ///
    /// # Errors
    ///
    /// If the window does not hold the table the function returns
    /// `Error::BufferTooSmall`. If the signature or the CRC32 of the table do
    /// not match the expected values the function returns
    /// `Error::InvalidSignature` or `Error::InvalidCheckSum`.
    pub fn new(mem: &Memory, boot_services_ptr: Ptr) -> (res: Result<Self, Error>)
        ensures
            agrees(res, Self::parse(*mem, boot_services_ptr)),
    {
        let table = match read_firmware_table(
            mem,
            boot_services_ptr,
            EFI_BOOT_SERVICES_SIZE,
            EFI_BOOT_SERVICES_SIGNATURE,
        ) {
            Ok(table) => table,
            Err(err) => {
                return Err(err);
            },
        };
        let boot_services = EfiBootServices {
            hdr: read_table_header(table),
            get_memory_map: read_u64(table, 56),
            exit_boot_services: read_u64(table, 232),
            get_next_monotonic_count: read_u64(table, 240),
        };
        Ok(BootServices { boot_services })
    }

    /// Returns the decoded table.
    pub fn table(&self) -> (table: EfiBootServices)
        ensures
            table == self@,
    {
        self.boot_services
    }

    /// This function must be called by the currently executing UEFI OS loader
    /// image to terminate all boot services. On success, the UEFI OS loader
    /// becomes responsible for the continued operation of the system.
    ///
    /// A UEFI OS loader must ensure that it has the system's current memory
    /// map at the time it calls this function. This is done by passing in the
    /// current memory map's `map_key` value as returned by `get_memory_map`.
    ///
    /// The call of `EFI_BOOT_SERVICES.ExitBootServices()` itself, at the
    /// address `exit_boot_services` of the table, is the caller's: `status` is
    /// what it returned. A warning or an error, such as the one for a stale
    /// `map_key`, is handed on and the call is not made again.
    pub fn exit_boot_services(&self, status: EfiStatus) -> (res: Result<(), Error>)
        ensures
            res == status_result(status.0),
    {
        // Return with error in the case of warning and error status codes.
        check_status(status)
    }
}

/// The `EFI_GUID` type of the UEFI specification. `data4` is the number
/// that the last eight bytes hold, low byte first.
#[derive(Debug, Clone, Copy, PartialEq, Eq, Structural)]
pub struct EfiGuid {
    pub data1: u32,
    pub data2: u16,
    pub data3: u16,
    pub data4: u64,
}

/// The `EFI_CONFIGURATION_TABLE` type of the UEFI specification.
#[derive(Debug, Clone, Copy)]
pub struct EfiConfigurationTable {
    pub vendor_guid: EfiGuid,
    pub vendor_table: u64,
}

/// Size of an `EFI_CONFIGURATION_TABLE`.
pub const EFI_CONFIGURATION_TABLE_SIZE: usize = 24;

/// The EFI GUID for a pointer to the ACPI 2.0 or later specification RSDP,
/// `8868e871-e4f1-11d3-bc22-0080c73c8881`: the last eight bytes are `bc 22 00
/// 80 c7 3c 88 81`.
pub open spec fn efi_acpi_20_table_guid() -> EfiGuid {
    EfiGuid { data1: 0x8868e871, data2: 0xe4f1, data3: 0x11d3, data4: 0x8188_3cc7_8000_22bc }
}

/// The configuration table entry that the 24 bytes from `at` on hold.
pub open spec fn configuration_table(bytes: Seq<u8>, at: int) -> EfiConfigurationTable {
    EfiConfigurationTable {
        vendor_guid: EfiGuid {
            data1: le_u32(bytes, at),
            data2: le_u16(bytes, at + 4),
            data3: le_u16(bytes, at + 6),
            data4: le_u64(bytes, at + 8),
        },
        vendor_table: le_u64(bytes, at + 16),
    }
}

/// The maximum number of entries in `ConfigurationTables`.
pub const EFI_CONFIGURATION_TABLES_LEN: usize = 32;

/// Represents the EFI Configuration Tables. Among other things, it provides
/// access to the ACPI structures.
#[derive(Debug)]
pub struct ConfigurationTables {
    config_tables: [EfiConfigurationTable; EFI_CONFIGURATION_TABLES_LEN],
    num_entries: usize,
}

impl View for ConfigurationTables {
    type V = Seq<EfiConfigurationTable>;

    /// The entries in use, in table order.
    closed spec fn view(&self) -> Seq<EfiConfigurationTable> {
        self.config_tables@.subrange(0, self.num_entries as int)
    }
}

impl ConfigurationTables {
    /// At most `EFI_CONFIGURATION_TABLES_LEN` entries are in use.
    #[verifier::type_invariant]
    spec fn wf(&self) -> bool {
        self.num_entries <= EFI_CONFIGURATION_TABLES_LEN
    }

    /// The `num_entries` configuration table entries found at `ptr`, or
    /// the first check that fails.
    pub open spec fn parse(mem: Memory, ptr: Ptr, num_entries: usize) -> Result<
        Seq<EfiConfigurationTable>,
        Error,
    > {
        let size = num_entries * EFI_CONFIGURATION_TABLE_SIZE;
        if num_entries > EFI_CONFIGURATION_TABLES_LEN {
            Err(Error::BufferTooSmall)
        } else if !mem.holds(ptr.0 as int, size) {
            Err(Error::BufferTooSmall)
        } else {
            Ok(
                Seq::new(
                    num_entries as nat,
                    |i: int|
                        configuration_table(
                            mem.at(ptr.0 as int, size),
                            i * EFI_CONFIGURATION_TABLE_SIZE,
                        ),
                ),
            )
        }
    }

    /// Creates a new `ConfigurationTables` from a given pointer
    /// `config_tables_ptr` and the number of table entries `num_entries`.
    ///
    /// # Errors
    ///
    /// The function returns `Error::BufferTooSmall` if there are more than
    /// `EFI_CONFIGURATION_TABLES_LEN` entries, or if the window does not hold
    /// them all.
    pub fn new(mem: &Memory, config_tables_ptr: Ptr, num_entries: usize) -> (res: Result<
        Self,
        Error,
    >)
        ensures
            agrees(res, Self::parse(*mem, config_tables_ptr, num_entries)),
    {
        if num_entries > EFI_CONFIGURATION_TABLES_LEN {
            return Err(Error::BufferTooSmall);
        }
        let size = num_entries * EFI_CONFIGURATION_TABLE_SIZE;
        let bytes = match mem.read(config_tables_ptr.0, size) {
            Some(bytes) => bytes,
            None => {
                return Err(Error::BufferTooSmall);
            },
        };
        let empty = EfiConfigurationTable {
            vendor_guid: EfiGuid { data1: 0, data2: 0, data3: 0, data4: 0 },
            vendor_table: 0,
        };
        let mut config_tables = [empty;EFI_CONFIGURATION_TABLES_LEN];
        let mut i: usize = 0;
        while i < num_entries
            invariant
                i <= num_entries <= EFI_CONFIGURATION_TABLES_LEN,
                bytes@.len() == num_entries * EFI_CONFIGURATION_TABLE_SIZE,
                forall|k: int|
                    0 <= k < i ==> config_tables@[k] == configuration_table(
                        bytes@,
                        k * EFI_CONFIGURATION_TABLE_SIZE,
                    ),
            decreases num_entries - i,
        {
            let at = i * EFI_CONFIGURATION_TABLE_SIZE;
            config_tables[i] = EfiConfigurationTable {
                vendor_guid: EfiGuid {
                    data1: read_u32(bytes, at),
                    data2: read_u16(bytes, at + 4),
                    data3: read_u16(bytes, at + 6),
                    data4: read_u64(bytes, at + 8),
                },
                vendor_table: read_u64(bytes, at + 16),
            };
            i += 1;
        }
        let tables = ConfigurationTables { config_tables, num_entries };
        assert(tables@ =~= Self::parse(*mem, config_tables_ptr, num_entries)->Ok_0);
        Ok(tables)
    }

    /// Returns the entries in use.
    pub fn entries(&self) -> (out: &[EfiConfigurationTable])
        ensures
            out@ == self@,
    {
        proof {
            use_type_invariant(self);
        }
        slice_subrange(self.config_tables.as_slice(), 0, self.num_entries)
    }

    /// The entry at `i` is the first one for the ACPI 2.0 table.
    pub open spec fn first_acpi_20(&self, i: int) -> bool {
        &&& 0 <= i < self@.len()
        &&& self@[i].vendor_guid == efi_acpi_20_table_guid()
        &&& forall|j: int| 0 <= j < i ==> (#[trigger] self@[j]).vendor_guid != efi_acpi_20_table_guid()
    }

    /// Returns a pointer to the Root System Description Pointer (RSDP)
    /// structure for the ACPI 2.0 or later specification: the pointer of the
    /// first entry with the GUID of that table.
    ///
    /// # Errors
    ///
    /// This function will return `Error::NotFound` if a configuration table
    /// with a valid ACPI table GUID cannot be found, and
    /// `Error::InvalidAddressSize` if the pointer found does not fit the
    /// machine's addresses.
    pub fn acpi_rsdp20_ptr(&self) -> (res: Result<Ptr, Error>)
        ensures
            (forall|i: int| !self.first_acpi_20(i)) ==> res == Err::<Ptr, Error>(Error::NotFound),
            forall|i: int|
                self.first_acpi_20(i) ==> res == ptr_of(self@[i].vendor_table),
    {
        let guid = EfiGuid {
            data1: 0x8868e871,
            data2: 0xe4f1,
            data3: 0x11d3,
            data4: 0x8188_3cc7_8000_22bc,
        };
        proof {
            use_type_invariant(self);
        }
        let mut i: usize = 0;
        while i < self.num_entries
            invariant
                self.num_entries <= EFI_CONFIGURATION_TABLES_LEN,
                i <= self.num_entries,
                guid == efi_acpi_20_table_guid(),
                forall|j: int| 0 <= j < i ==> (#[trigger] self@[j]).vendor_guid != guid,
            decreases self.num_entries - i,
        {
            let cfg_table = self.config_tables[i];
            assert(cfg_table == self@[i as int]);
            if cfg_table.vendor_guid == guid {
                assert(self.first_acpi_20(i as int));
                assert forall|k: int| self.first_acpi_20(k) implies k == i by {
                    if k < i {
                        assert(self@[k].vendor_guid != guid);
                    } else if k > i {
                        assert(self@[i as int].vendor_guid == guid);
                    }
                }
                return Ptr::try_from(cfg_table.vendor_table);
            }
            i += 1;
        }
        assert forall|k: int| !self.first_acpi_20(k) by {
            if 0 <= k < self@.len() {
                assert(self@[k].vendor_guid != guid);
            }
        }
        Err(Error::NotFound)
    }
}

} // verus!
