use expos::uefi::acpi::{AcpiSdtHeader, Madt, Rsdp20, SdtType, Xsdt};
use expos::uefi::bytes::Memory;
use expos::uefi::utils::add_bytes;
use expos::uefi::{Error, Ptr};

const BASE: usize = 0x2_0000;
const RSDP: usize = BASE;
const XSDT: usize = BASE + 0x100;
const FADT: usize = BASE + 0x300;
const MADT: usize = BASE + 0x400;

fn put(image: &mut [u8], at: usize, bytes: &[u8]) {
    image[at..at + bytes.len()].copy_from_slice(bytes);
}

/// Sets the byte at `field` so that the `len` bytes from `at` on add up to
/// zero.
fn balance(image: &mut [u8], at: usize, len: usize, field: usize) {
    image[at + field] = 0;
    let sum = add_bytes(&image[at..at + len]);
    image[at + field] = 0u8.wrapping_sub(sum);
}

fn rsdp(revision: u8, xsdt: u64) -> Vec<u8> {
    let mut bytes = vec![0u8; 36];
    put(&mut bytes, 0, b"RSD PTR ");
    put(&mut bytes, 9, b"BOCHS ");
    bytes[15] = revision;
    put(&mut bytes, 16, &0x7fe_1000u32.to_le_bytes());
    put(&mut bytes, 20, &36u32.to_le_bytes());
    put(&mut bytes, 24, &xsdt.to_le_bytes());
    balance(&mut bytes, 0, 36, 8);
    bytes
}

fn sdt(signature: &[u8; 4], body: &[u8]) -> Vec<u8> {
    let mut bytes = vec![0u8; 36];
    put(&mut bytes, 0, signature);
    put(&mut bytes, 4, &((36 + body.len()) as u32).to_le_bytes());
    bytes[8] = 1;
    put(&mut bytes, 10, b"BOCHS ");
    put(&mut bytes, 16, b"BXPC    ");
    put(&mut bytes, 24, &1u32.to_le_bytes());
    put(&mut bytes, 28, b"BXPC");
    put(&mut bytes, 32, &1u32.to_le_bytes());
    bytes.extend_from_slice(body);
    let len = bytes.len();
    balance(&mut bytes, 0, len, 9);
    bytes
}

fn xsdt(entries: &[u64]) -> Vec<u8> {
    let mut body = Vec::new();
    for entry in entries {
        body.extend_from_slice(&entry.to_le_bytes());
    }
    sdt(b"XSDT", &body)
}

fn lapic(proc_uid: u8, apic_id: u8, flags: u32) -> Vec<u8> {
    let mut record = vec![0u8, 8, proc_uid, apic_id];
    record.extend_from_slice(&flags.to_le_bytes());
    record
}

fn madt(records: &[u8]) -> Vec<u8> {
    let mut body = Vec::new();
    body.extend_from_slice(&0xfee0_0000u32.to_le_bytes());
    body.extend_from_slice(&1u32.to_le_bytes());
    body.extend_from_slice(records);
    sdt(b"APIC", &body)
}

fn two_processors() -> Vec<u8> {
    let mut records = lapic(0, 0, 1);
    // An I/O APIC.
    records.extend_from_slice(&[1, 12, 0, 0, 0, 0, 0xc0, 0xfe, 0, 0, 0, 0]);
    records.extend_from_slice(&lapic(1, 1, 1));
    // A local APIC NMI.
    records.extend_from_slice(&[4, 6, 0xff, 0, 0, 1]);
    records.extend_from_slice(&lapic(7, 9, 0x1234_5678));
    records
}

fn acpi_image(entries: &[u64], madt_table: &[u8]) -> Vec<u8> {
    let mut image = vec![0u8; 0x1000];
    put(&mut image, RSDP - BASE, &rsdp(2, XSDT as u64));
    put(&mut image, XSDT - BASE, &xsdt(entries));
    put(&mut image, FADT - BASE, &sdt(b"FACP", &[0u8; 80]));
    put(&mut image, MADT - BASE, madt_table);
    image
}

#[test]
fn test_rsdp20_valid() {
    let bytes = rsdp(2, 0x7fe_2000);
    assert_eq!(add_bytes(&bytes), 0);
    let mem = Memory::new(RSDP, &bytes);
    let rsdp20 = Rsdp20::new(&mem, Ptr(RSDP)).unwrap();
    let table = rsdp20.table();
    assert_eq!(table.signature, 0x2052_5450_2044_5352);
    assert_eq!(table.checksum, bytes[8]);
    assert_eq!(table.revision, 2);
    assert_eq!(table.rsdt_addr, 0x7fe_1000);
    assert_eq!(table.length, 36);
    assert_eq!(table.xsdt_addr, 0x7fe_2000);
    assert_eq!(table.ext_checksum, 0);
    assert!(Rsdp20::new(&Memory::new(RSDP, &rsdp(3, 0)), Ptr(RSDP)).is_ok());
}

#[test]
fn test_rsdp20_invalid_checksum() {
    let mut bytes = rsdp(2, 0x7fe_2000);
    bytes[8] = bytes[8].wrapping_add(1);
    let mem = Memory::new(RSDP, &bytes);
    assert!(matches!(Rsdp20::new(&mem, Ptr(RSDP)), Err(Error::InvalidCheckSum)));
    for at in 8..36 {
        if (20..24).contains(&at) {
            // The length: it changes what is added up.
            continue;
        }
        let mut bytes = rsdp(2, 0x7fe_2000);
        bytes[at] ^= 0x40;
        let mem = Memory::new(RSDP, &bytes);
        assert!(matches!(Rsdp20::new(&mem, Ptr(RSDP)), Err(Error::InvalidCheckSum)));
    }
}

#[test]
fn test_rsdp20_invalid_signature() {
    for at in 0..8 {
        let mut bytes = rsdp(2, 0x7fe_2000);
        bytes[at] ^= 0x01;
        let mem = Memory::new(RSDP, &bytes);
        assert!(matches!(Rsdp20::new(&mem, Ptr(RSDP)), Err(Error::InvalidSignature)));
    }
    // The signature comes before the revision and the checksum.
    let mut bytes = rsdp(0, 0x7fe_2000);
    bytes[0] = b'X';
    let mem = Memory::new(RSDP, &bytes);
    assert!(matches!(Rsdp20::new(&mem, Ptr(RSDP)), Err(Error::InvalidSignature)));
}

#[test]
fn test_rsdp20_invalid_revision() {
    for revision in [0u8, 1] {
        let bytes = rsdp(revision, 0x7fe_2000);
        let mem = Memory::new(RSDP, &bytes);
        assert!(matches!(Rsdp20::new(&mem, Ptr(RSDP)), Err(Error::InvalidRevision)));
    }
    // The checksum comes before the revision.
    let mut bytes = rsdp(1, 0x7fe_2000);
    bytes[33] ^= 1;
    let mem = Memory::new(RSDP, &bytes);
    assert!(matches!(Rsdp20::new(&mem, Ptr(RSDP)), Err(Error::InvalidCheckSum)));
}

#[test]
fn test_rsdp20_declared_length() {
    // A declared length of 20 bytes: the rest does not count.
    let mut bytes = rsdp(2, 0x7fe_2000);
    put(&mut bytes, 20, &20u32.to_le_bytes());
    balance(&mut bytes, 0, 20, 8);
    bytes[30] ^= 0xff;
    let mem = Memory::new(RSDP, &bytes);
    assert!(Rsdp20::new(&mem, Ptr(RSDP)).is_ok());
    // A declared length that the window does not hold.
    let mut bytes = rsdp(2, 0x7fe_2000);
    put(&mut bytes, 20, &37u32.to_le_bytes());
    let mem = Memory::new(RSDP, &bytes);
    assert!(matches!(Rsdp20::new(&mem, Ptr(RSDP)), Err(Error::BufferTooSmall)));
    let mem = Memory::new(RSDP, &bytes[..35]);
    assert!(matches!(Rsdp20::new(&mem, Ptr(RSDP)), Err(Error::BufferTooSmall)));
}

#[test]
fn test_sdt_signature() {
    assert_eq!(SdtType::Xsdt.signature().to_le_bytes(), *b"XSDT");
    assert_eq!(SdtType::Madt.signature().to_le_bytes(), *b"APIC");
}

#[test]
fn test_acpi_sdt_header() {
    let table = madt(&two_processors());
    let mem = Memory::new(MADT, &table);
    let hdr = AcpiSdtHeader::new(&mem, Ptr(MADT), SdtType::Madt).unwrap();
    assert_eq!(hdr.signature.to_le_bytes(), *b"APIC");
    assert_eq!(hdr.length as usize, table.len());
    assert_eq!(hdr.revision, 1);
    assert_eq!(hdr.checksum, table[9]);
    assert_eq!(hdr.oem_table_id.to_le_bytes(), *b"BXPC    ");
    assert_eq!(hdr.oem_revision, 1);
    assert_eq!(hdr.creator_id.to_le_bytes(), *b"BXPC");
    assert_eq!(hdr.creator_revision, 1);
    assert!(matches!(
        AcpiSdtHeader::new(&mem, Ptr(MADT), SdtType::Xsdt),
        Err(Error::InvalidSignature)
    ));
    let mut broken = table.clone();
    broken[50] ^= 1;
    let mem = Memory::new(MADT, &broken);
    assert!(matches!(
        AcpiSdtHeader::new(&mem, Ptr(MADT), SdtType::Madt),
        Err(Error::InvalidCheckSum)
    ));
    let mem = Memory::new(MADT, &table[..table.len() - 1]);
    assert!(matches!(
        AcpiSdtHeader::new(&mem, Ptr(MADT), SdtType::Madt),
        Err(Error::BufferTooSmall)
    ));
    let mem = Memory::new(MADT, &table[..35]);
    assert!(matches!(
        AcpiSdtHeader::new(&mem, Ptr(MADT), SdtType::Madt),
        Err(Error::BufferTooSmall)
    ));
}

#[test]
fn test_acpi_chain() {
    let image = acpi_image(&[FADT as u64, MADT as u64], &madt(&two_processors()));
    let mem = Memory::new(BASE, &image);
    let rsdp20 = Rsdp20::new(&mem, Ptr(RSDP)).unwrap();
    let xsdt = rsdp20.xsdt(&mem).unwrap();
    assert_eq!(xsdt.entries(), [FADT as u64, MADT as u64]);
    let madt = xsdt.madt(&mem).unwrap();
    assert_eq!(madt.lapic_addr(), 0xfee0_0000);
    assert_eq!(madt.flags(), 1);
    let lapic = madt.lapic();
    assert_eq!(lapic.len(), 3);
    assert_eq!((lapic[0].proc_uid(), lapic[0].acpi_id(), lapic[0].flags()), (0, 0, 1));
    assert_eq!((lapic[1].proc_uid(), lapic[1].acpi_id(), lapic[1].flags()), (1, 1, 1));
    assert_eq!((lapic[2].proc_uid(), lapic[2].acpi_id(), lapic[2].flags()), (7, 9, 0x1234_5678));
}

#[test]
fn test_xsdt_errors() {
    // Not a whole number of entries.
    let table = sdt(b"XSDT", &[0u8; 12]);
    let mem = Memory::new(XSDT, &table);
    assert!(matches!(Xsdt::new(&mem, Ptr(XSDT)), Err(Error::InvalidAcpiData)));
    // Shorter than its own header.
    let mut table = sdt(b"XSDT", &[]);
    put(&mut table, 4, &20u32.to_le_bytes());
    balance(&mut table, 0, 20, 9);
    let mem = Memory::new(XSDT, &table);
    assert!(matches!(Xsdt::new(&mem, Ptr(XSDT)), Err(Error::InvalidAcpiData)));
    // No entries at all.
    let table = xsdt(&[]);
    let mem = Memory::new(XSDT, &table);
    let empty = Xsdt::new(&mem, Ptr(XSDT)).unwrap();
    assert!(empty.entries().is_empty());
    assert!(matches!(empty.madt(&mem), Err(Error::NotFound)));
    // As many entries as there is room for, and one more.
    let entries: Vec<u64> = (0..33).map(|i| 0x1000 * i).collect();
    let table = xsdt(&entries[..32]);
    let mem = Memory::new(XSDT, &table);
    assert_eq!(Xsdt::new(&mem, Ptr(XSDT)).unwrap().entries(), &entries[..32]);
    let table = xsdt(&entries);
    let mem = Memory::new(XSDT, &table);
    assert!(matches!(Xsdt::new(&mem, Ptr(XSDT)), Err(Error::BufferTooSmall)));
    // Another table.
    let table = sdt(b"RSDT", &[0u8; 8]);
    let mem = Memory::new(XSDT, &table);
    assert!(matches!(Xsdt::new(&mem, Ptr(XSDT)), Err(Error::InvalidSignature)));
    let mut table = xsdt(&entries[..4]);
    table[40] ^= 4;
    let mem = Memory::new(XSDT, &table);
    assert!(matches!(Xsdt::new(&mem, Ptr(XSDT)), Err(Error::InvalidCheckSum)));
}

#[test]
fn test_xsdt_madt_lookup() {
    // No entry points to a MADT.
    let image = acpi_image(&[FADT as u64, FADT as u64], &madt(&two_processors()));
    let mem = Memory::new(BASE, &image);
    let xsdt = Xsdt::new(&mem, Ptr(XSDT)).unwrap();
    assert!(matches!(xsdt.madt(&mem), Err(Error::NotFound)));
    // An entry that points out of the window comes first.
    let image = acpi_image(&[0x10, MADT as u64], &madt(&two_processors()));
    let mem = Memory::new(BASE, &image);
    let xsdt = Xsdt::new(&mem, Ptr(XSDT)).unwrap();
    assert!(matches!(xsdt.madt(&mem), Err(Error::BufferTooSmall)));
    // The MADT is found first.
    let image = acpi_image(&[MADT as u64, 0x10], &madt(&two_processors()));
    let mem = Memory::new(BASE, &image);
    let xsdt = Xsdt::new(&mem, Ptr(XSDT)).unwrap();
    assert_eq!(xsdt.madt(&mem).unwrap().lapic().len(), 3);
    // The signature is there, the table is broken.
    let mut table = madt(&two_processors());
    table[9] ^= 1;
    let image = acpi_image(&[FADT as u64, MADT as u64], &table);
    let mem = Memory::new(BASE, &image);
    let xsdt = Xsdt::new(&mem, Ptr(XSDT)).unwrap();
    assert!(matches!(xsdt.madt(&mem), Err(Error::InvalidCheckSum)));
}

#[test]
fn test_madt_records() {
    let table = madt(&[]);
    let mem = Memory::new(MADT, &table);
    let empty = Madt::new(&mem, Ptr(MADT)).unwrap();
    assert!(empty.lapic().is_empty());
    assert_eq!(empty.lapic_addr(), 0xfee0_0000);

    // A record that reaches past the end of the table ends the walk.
    let mut records = lapic(3, 4, 5);
    records.extend_from_slice(&[9, 200, 1, 2]);
    let table = madt(&records);
    let mem = Memory::new(MADT, &table);
    let madt_table = Madt::new(&mem, Ptr(MADT)).unwrap();
    assert_eq!(madt_table.lapic().len(), 1);
    assert_eq!(madt_table.lapic()[0].proc_uid(), 3);
    assert_eq!(madt_table.lapic()[0].acpi_id(), 4);
    assert_eq!(madt_table.lapic()[0].flags(), 5);
}

#[test]
fn test_madt_invalid_records() {
    // A record of length zero.
    let mut records = lapic(0, 0, 1);
    records.extend_from_slice(&[5, 0, 0, 0]);
    let table = madt(&records);
    let mem = Memory::new(MADT, &table);
    assert!(matches!(Madt::new(&mem, Ptr(MADT)), Err(Error::InvalidAcpiData)));
    let table = madt(&[0, 0, 0, 0, 0, 0, 0, 0]);
    let mem = Memory::new(MADT, &table);
    assert!(matches!(Madt::new(&mem, Ptr(MADT)), Err(Error::InvalidAcpiData)));
    // A record cut off after its type.
    let mut records = lapic(0, 0, 1);
    records.push(1);
    let table = madt(&records);
    let mem = Memory::new(MADT, &table);
    assert!(matches!(Madt::new(&mem, Ptr(MADT)), Err(Error::InvalidAcpiData)));
    // A local APIC structure cut off.
    let table = madt(&[0, 8, 1, 1, 1, 0, 0]);
    let mem = Memory::new(MADT, &table);
    assert!(matches!(Madt::new(&mem, Ptr(MADT)), Err(Error::InvalidAcpiData)));
    // A table that ends before its fields do.
    let table = sdt(b"APIC", &[0u8; 7]);
    let mem = Memory::new(MADT, &table);
    assert!(matches!(Madt::new(&mem, Ptr(MADT)), Err(Error::InvalidAcpiData)));
}

#[test]
fn test_madt_capacity() {
    let mut records = Vec::new();
    for i in 0..256u32 {
        records.extend_from_slice(&lapic(i as u8, (255 - i) as u8, i));
    }
    let table = madt(&records);
    let mem = Memory::new(MADT, &table);
    let full = Madt::new(&mem, Ptr(MADT)).unwrap();
    assert_eq!(full.lapic().len(), 256);
    assert_eq!(full.lapic()[255].proc_uid(), 255);
    assert_eq!(full.lapic()[255].acpi_id(), 0);
    assert_eq!(full.lapic()[255].flags(), 255);
    // Other records do not count.
    records.extend_from_slice(&[1, 12, 0, 0, 0, 0, 0xc0, 0xfe, 0, 0, 0, 0]);
    let table = madt(&records);
    let mem = Memory::new(MADT, &table);
    assert_eq!(Madt::new(&mem, Ptr(MADT)).unwrap().lapic().len(), 256);
    // One more local APIC structure does.
    records.extend_from_slice(&lapic(0, 0, 0));
    let table = madt(&records);
    let mem = Memory::new(MADT, &table);
    assert!(matches!(Madt::new(&mem, Ptr(MADT)), Err(Error::BufferTooSmall)));
}
