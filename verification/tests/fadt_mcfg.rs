use acpi_sdt::fadt::{Fadt, FadtFlags};
use acpi_sdt::mcfg::Mcfg;
use acpi_sdt::sdt::{RootTable, Signature, SliceBridge};
use acpi_sdt::{Rsdp, Sdt};

fn sdt_header(sig: [u8; 4], length: u32, revision: u8) -> Vec<u8> {
    let mut v = Vec::new();
    v.extend_from_slice(&sig);
    v.extend_from_slice(&length.to_le_bytes());
    v.push(revision);
    v.push(0);
    v.extend_from_slice(b"OEMIDA");
    v.extend_from_slice(&[0u8; 8]);
    v.extend_from_slice(&0u32.to_le_bytes());
    v.extend_from_slice(&0u32.to_le_bytes());
    v.extend_from_slice(&0u32.to_le_bytes());
    v
}

fn locate(img: Vec<u8>, table_addr: u32) -> RootTable<SliceBridge> {
    let mut img = img;
    let mut rsdt = sdt_header(*b"RSDT", 40, 1);
    rsdt.extend_from_slice(&table_addr.to_le_bytes());
    img[400..400 + rsdt.len()].copy_from_slice(&rsdt);
    let rsdp = Rsdp {
        signature: *b"RSD PTR ",
        checksum: 0,
        oem_id: *b"OEMIDA",
        revision: 1,
        rsdt_addr: 400,
        length: 0,
        xsdt_addr: 0,
        x_checksum: 0,
        reserved: [0; 3],
    };
    RootTable::new(&rsdp, SliceBridge::new(img)).unwrap()
}

/// A revision-1 power-management table of the legacy 116-byte size.
fn fadt_rev1() -> Vec<u8> {
    let mut t = sdt_header(*b"FACP", 116, 1);
    t.extend_from_slice(&0x1000u32.to_le_bytes()); // firmware_ctrl
    t.extend_from_slice(&0x2000u32.to_le_bytes()); // dsdt
    t.push(0); // reserved
    t.push(2); // preferred_pm_profile
    t.extend_from_slice(&9u16.to_le_bytes()); // sci_int
    t.extend_from_slice(&0xb2u32.to_le_bytes()); // smi_cmd
    t.extend_from_slice(&[0xa0, 0xa1, 0xa2, 0xa3]); // enable/disable/s4bios/pstate
    while t.len() < 112 {
        t.push(0);
    }
    t.extend_from_slice(&0x11u32.to_le_bytes()); // flags: WBINVD | PWR_BUTTON
    assert_eq!(t.len(), 116);
    t
}

#[test]
fn legacy_table_uses_legacy_dsdt_address() {
    let mut img = vec![0u8; 1024];
    let t = fadt_rev1();
    img[100..100 + t.len()].copy_from_slice(&t);
    let rt = locate(img, 100);
    let fadt = rt.get_table::<Fadt>(0).unwrap();
    assert_eq!(fadt.header.signature, Signature(*b"FACP"));
    assert_eq!(fadt.header.revision, 1);
    assert_eq!(fadt.firmware_ctrl, 0x1000);
    assert_eq!(fadt.preferred_pm_profile, 2);
    assert_eq!(fadt.sci_int, 9);
    assert_eq!(fadt.smi_cmd, 0xb2);
    assert_eq!(fadt.acpi_enable, 0xa0);
    assert_eq!(fadt.acpi_disable, 0xa1);
    // A legacy span has no extended fields: they decode as zero.
    assert_eq!(fadt.x_dsdt, 0);
    assert_eq!(fadt.dsdt(), 0x2000);
    assert!(fadt.flags().contains(FadtFlags::WBINVD));
    assert!(fadt.flags().contains(FadtFlags::PWR_BUTTON));
    assert!(!fadt.flags().contains(FadtFlags::PROC_C1));
    assert!(fadt.flags().intersects(FadtFlags::PWR_BUTTON | FadtFlags::HEADLESS));
}

#[test]
fn extended_table_uses_extended_dsdt_address() {
    let mut t = sdt_header(*b"FACP", 148, 2);
    t.extend_from_slice(&0x1000u32.to_le_bytes());
    t.extend_from_slice(&0x2000u32.to_le_bytes());
    while t.len() < 132 {
        t.push(0);
    }
    t.extend_from_slice(&0x5566u64.to_le_bytes()); // x_firmware_ctrl
    t.extend_from_slice(&0x7788_99aau64.to_le_bytes()); // x_dsdt
    assert_eq!(t.len(), 148);
    let mut img = vec![0u8; 1024];
    img[100..100 + t.len()].copy_from_slice(&t);
    let rt = locate(img, 100);
    let fadt = rt.get_table::<Fadt>(0).unwrap();
    assert_eq!(fadt.header.revision, 2);
    assert_eq!(fadt.x_firmware_ctrl, 0x5566);
    assert_eq!(fadt.x_dsdt, 0x7788_99aa);
    assert_eq!(fadt.dsdt(), 0x7788_99aa);
}

#[test]
fn undersized_table_is_refused() {
    // The declared length is shorter than the least decodable
    // power-management table: the typed lookup finds nothing.
    let mut img = vec![0u8; 1024];
    let t = sdt_header(*b"FACP", 36, 1);
    img[100..100 + t.len()].copy_from_slice(&t);
    let rt = locate(img, 100);
    assert!(rt.get_table::<Fadt>(0).is_none());
    // By signature (untyped) the table is still reachable.
    assert!(rt.get_table_by_signature(Signature(*b"FACP"), 0).is_some());
}

#[test]
fn configuration_regions_decode_in_order() {
    // Header, 8 reserved bytes, then two 16-byte region records.
    let mut t = sdt_header(*b"MCFG", 76, 1);
    t.extend_from_slice(&[0u8; 8]);
    t.extend_from_slice(&0xe000_0000u64.to_le_bytes());
    t.extend_from_slice(&0u16.to_le_bytes());
    t.push(0);
    t.push(255);
    t.extend_from_slice(&0u32.to_le_bytes());
    t.extend_from_slice(&0xd000_0000u64.to_le_bytes());
    t.extend_from_slice(&1u16.to_le_bytes());
    t.push(16);
    t.push(31);
    t.extend_from_slice(&0u32.to_le_bytes());
    assert_eq!(t.len(), 76);
    let mut img = vec![0u8; 1024];
    img[100..100 + t.len()].copy_from_slice(&t);
    let rt = locate(img, 100);
    let mcfg = rt.get_table::<Mcfg>(0).unwrap();
    let entries = mcfg.entries();
    // (length - 44) / 16 == (76 - 44) / 16 == 2 records.
    assert_eq!(entries.len(), 2);
    assert_eq!(entries[0].ecam_base, 0xe000_0000);
    assert_eq!(entries[0].segment, 0);
    assert_eq!(entries[0].bus_start, 0);
    assert_eq!(entries[0].bus_end, 255);
    assert_eq!(entries[1].ecam_base, 0xd000_0000);
    assert_eq!(entries[1].segment, 1);
    assert_eq!(entries[1].bus_start, 16);
    assert_eq!(entries[1].bus_end, 31);
}

#[test]
fn region_list_can_be_empty() {
    let mut t = sdt_header(*b"MCFG", 44, 1);
    t.extend_from_slice(&[0u8; 8]);
    let mut img = vec![0u8; 1024];
    img[100..100 + t.len()].copy_from_slice(&t);
    let rt = locate(img, 100);
    let mcfg = rt.get_table::<Mcfg>(0).unwrap();
    assert!(mcfg.entries().is_empty());
}
