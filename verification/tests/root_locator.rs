use acpi_sdt::bytes::{read_le16, read_le32, read_le64};
use acpi_sdt::madt::Madt;
use acpi_sdt::sdt::{Mapped, RootTable, Signature, SliceBridge};
use acpi_sdt::Rsdp;

fn sdt_header(sig: [u8; 4], length: u32, revision: u8) -> Vec<u8> {
    let mut v = Vec::new();
    v.extend_from_slice(&sig);
    v.extend_from_slice(&length.to_le_bytes());
    v.push(revision);
    v.push(0); // checksum
    v.extend_from_slice(b"OEMIDA"); // oem id
    v.extend_from_slice(&[0u8; 8]); // oem table id
    v.extend_from_slice(&1u32.to_le_bytes()); // oem revision
    v.extend_from_slice(&2u32.to_le_bytes()); // creator id
    v.extend_from_slice(&3u32.to_le_bytes()); // creator revision
    assert_eq!(v.len(), 36);
    v
}

fn write_at(img: &mut Vec<u8>, addr: usize, bytes: &[u8]) {
    img[addr..addr + bytes.len()].copy_from_slice(bytes);
}

fn legacy_rsdp(rsdt_addr: u32) -> Rsdp {
    Rsdp {
        signature: *b"RSD PTR ",
        checksum: 0,
        oem_id: *b"OEMIDA",
        revision: 1,
        rsdt_addr,
        length: 0,
        xsdt_addr: 0,
        x_checksum: 0,
        reserved: [0; 3],
    }
}

fn extended_rsdp(xsdt_addr: u64) -> Rsdp {
    Rsdp {
        signature: *b"RSD PTR ",
        checksum: 0,
        oem_id: *b"OEMIDA",
        revision: 2,
        rsdt_addr: 0,
        length: 36,
        xsdt_addr,
        x_checksum: 0,
        reserved: [0; 3],
    }
}

/// A legacy root table with two pointers: one APIC table, one FACP table.
fn two_table_image() -> Vec<u8> {
    let mut img = vec![0u8; 1024];
    // Minimal interrupt-controller table at 100: 36-byte header + 8 fixed
    // bytes, no sub-records.
    let mut apic = sdt_header(*b"APIC", 44, 1);
    apic.extend_from_slice(&0xfee0_0000u32.to_le_bytes());
    apic.extend_from_slice(&1u32.to_le_bytes());
    write_at(&mut img, 100, &apic);
    // Header-only power-management table at 200.
    write_at(&mut img, 200, &sdt_header(*b"FACP", 36, 1));
    // Root table at 300: signature "RSDT", length 44 = 36-byte header plus
    // two 4-byte pointers.
    let mut rsdt = sdt_header(*b"RSDT", 44, 1);
    rsdt.extend_from_slice(&100u32.to_le_bytes());
    rsdt.extend_from_slice(&200u32.to_le_bytes());
    write_at(&mut img, 300, &rsdt);
    img
}

#[test]
fn le_readers_exact_values() {
    let b: Vec<u8> = vec![0x78, 0x56, 0x34, 0x12, 0xef, 0xcd, 0xab, 0x89];
    assert_eq!(read_le16(b.as_slice(), 0), 0x5678);
    assert_eq!(read_le32(b.as_slice(), 0), 0x12345678);
    assert_eq!(read_le64(b.as_slice(), 0), 0x89abcdef12345678);
    assert_eq!(read_le16(b.as_slice(), 6), 0x89ab);
}

#[test]
fn rsdp_parse_legacy_and_extended() {
    let mut b = vec![0u8; 36];
    b[..8].copy_from_slice(b"RSD PTR ");
    b[8] = 0x55;
    b[9..15].copy_from_slice(b"OEMIDA");
    b[15] = 1; // revision
    b[16..20].copy_from_slice(&0x1234u32.to_le_bytes());
    let r = Rsdp::parse(&b[..20]).unwrap();
    assert_eq!(r.signature, *b"RSD PTR ");
    assert_eq!(r.checksum, 0x55);
    assert_eq!(r.revision, 1);
    assert_eq!(r.rsdt_addr, 0x1234);
    assert_eq!(r.xsdt_addr, 0);

    b[15] = 2;
    b[20..24].copy_from_slice(&36u32.to_le_bytes());
    b[24..32].copy_from_slice(&0x9abcdef0u64.to_le_bytes());
    b[32] = 0x77;
    let r = Rsdp::parse(&b).unwrap();
    assert_eq!(r.revision, 2);
    assert_eq!(r.length, 36);
    assert_eq!(r.xsdt_addr, 0x9abcdef0);
    assert_eq!(r.x_checksum, 0x77);
}

#[test]
fn rsdp_parse_rejects_short_input() {
    assert!(Rsdp::parse(&[0u8; 19]).is_none());
    // Revision 2 needs the extended fields.
    let mut b = vec![0u8; 20];
    b[15] = 2;
    assert!(Rsdp::parse(&b).is_none());
    // Revision 0 fits in 20 bytes.
    let b = vec![0u8; 20];
    assert!(Rsdp::parse(&b).is_some());
}

#[test]
fn legacy_root_lists_tables_in_order() {
    let img = two_table_image();
    let bridge = SliceBridge::new(img);
    let rt = RootTable::new(&legacy_rsdp(300), bridge).unwrap();
    assert_eq!(rt.acpi_revision, 1);
    let tables = rt.all_tables();
    // (root_header.length - 36) / 4 == (44 - 36) / 4 == 2 entries.
    assert_eq!(tables.len(), 2);
    assert_eq!(tables[0].header().signature, Signature(*b"APIC"));
    assert_eq!(tables[1].header().signature, Signature(*b"FACP"));
}

#[test]
fn extended_root_lists_tables_in_order() {
    let mut img = vec![0u8; 1024];
    let mut apic = sdt_header(*b"APIC", 44, 1);
    apic.extend_from_slice(&0u32.to_le_bytes());
    apic.extend_from_slice(&0u32.to_le_bytes());
    write_at(&mut img, 100, &apic);
    write_at(&mut img, 200, &sdt_header(*b"FACP", 36, 1));
    // Root table: signature "XSDT", length 52 = 36-byte header plus two
    // 8-byte pointers.
    let mut xsdt = sdt_header(*b"XSDT", 52, 1);
    xsdt.extend_from_slice(&100u64.to_le_bytes());
    xsdt.extend_from_slice(&200u64.to_le_bytes());
    write_at(&mut img, 300, &xsdt);
    let bridge = SliceBridge::new(img);
    let rt = RootTable::new(&extended_rsdp(300), bridge).unwrap();
    assert_eq!(rt.acpi_revision, 2);
    let tables = rt.all_tables();
    // (root_header.length - 36) / 8 == (52 - 36) / 8 == 2 entries.
    assert_eq!(tables.len(), 2);
    assert_eq!(tables[0].header().signature, Signature(*b"APIC"));
    assert_eq!(tables[1].header().signature, Signature(*b"FACP"));
}

#[test]
fn get_table_by_signature_scenario() {
    let img = two_table_image();
    let bridge = SliceBridge::new(img);
    let rt = RootTable::new(&legacy_rsdp(300), bridge).unwrap();
    let apic = rt.get_table_by_signature(Signature(*b"APIC"), 0);
    assert!(apic.is_some());
    assert_eq!(apic.unwrap().header().signature, Signature(*b"APIC"));
    // Only one table carries the signature: index 1 finds nothing.
    assert!(rt.get_table_by_signature(Signature(*b"APIC"), 1).is_none());
    // A signature no table carries finds nothing at index 0.
    assert!(rt.get_table_by_signature(Signature(*b"RHCT"), 0).is_none());
}

#[test]
fn repeated_signatures_are_indexed_in_order() {
    let mut img = vec![0u8; 1024];
    // Two interrupt-controller tables, told apart by their controller
    // block addresses.
    let mut first = sdt_header(*b"APIC", 44, 1);
    first.extend_from_slice(&0x1111u32.to_le_bytes());
    first.extend_from_slice(&0u32.to_le_bytes());
    write_at(&mut img, 100, &first);
    let mut second = sdt_header(*b"APIC", 44, 1);
    second.extend_from_slice(&0x2222u32.to_le_bytes());
    second.extend_from_slice(&0u32.to_le_bytes());
    write_at(&mut img, 200, &second);
    let mut rsdt = sdt_header(*b"RSDT", 44, 1);
    rsdt.extend_from_slice(&100u32.to_le_bytes());
    rsdt.extend_from_slice(&200u32.to_le_bytes());
    write_at(&mut img, 300, &rsdt);
    let bridge = SliceBridge::new(img);
    let rt = RootTable::new(&legacy_rsdp(300), bridge).unwrap();
    assert_eq!(rt.get_table::<Madt>(0).unwrap().local_intc_addr(), 0x1111);
    assert_eq!(rt.get_table::<Madt>(1).unwrap().local_intc_addr(), 0x2222);
    assert!(rt.get_table::<Madt>(2).is_none());
}

#[test]
fn all_tables_idempotent() {
    let img = two_table_image();
    let bridge = SliceBridge::new(img);
    let rt = RootTable::new(&legacy_rsdp(300), bridge).unwrap();
    let a = rt.all_tables();
    let b = rt.all_tables();
    assert_eq!(a.len(), b.len());
    for (x, y) in a.iter().zip(b.iter()) {
        assert_eq!(x.header().signature, y.header().signature);
        assert_eq!(x.header().length, y.header().length);
    }
}

#[test]
fn widening_preserves_header_bytes() {
    let img = two_table_image();
    let bridge = SliceBridge::new(img);
    let narrow = Mapped::new(100, &bridge).unwrap();
    let wide = narrow.clone_header().unwrap();
    assert_eq!(narrow.as_bytes(), &wide.as_bytes()[..36]);
    let narrow_bytes = narrow.into_inner();
    let wide_bytes = wide.into_inner();
    assert_eq!(narrow_bytes.len(), 36);
    assert_eq!(wide_bytes.len(), 44);
    assert_eq!(&wide_bytes[..36], &narrow_bytes[..]);
}

#[test]
fn mapping_rejects_out_of_range_spans() {
    let img = two_table_image();
    let bridge = SliceBridge::new(img);
    // Header would reach past the end of memory.
    assert!(Mapped::new(1000, &bridge).is_none());
    // Declared length reaches past the end of memory.
    let mut img2 = vec![0u8; 100];
    let hdr = sdt_header(*b"APIC", 2000, 1);
    img2[10..46].copy_from_slice(&hdr);
    let bridge2 = SliceBridge::new(img2);
    let narrow = Mapped::new(10, &bridge2).unwrap();
    assert!(narrow.clone_header().is_none());
    // Declared length shorter than the header itself.
    let mut img3 = vec![0u8; 100];
    let hdr = sdt_header(*b"APIC", 20, 1);
    img3[10..46].copy_from_slice(&hdr);
    let bridge3 = SliceBridge::new(img3);
    let narrow = Mapped::new(10, &bridge3).unwrap();
    assert!(narrow.clone_header().is_none());
}

#[test]
fn root_table_rejects_incomplete_root() {
    // Root pointer reaches past memory.
    let bridge = SliceBridge::new(vec![0u8; 64]);
    assert!(RootTable::new(&legacy_rsdp(60), bridge).is_none());
    // Root table declares a length shorter than its header.
    let mut img = vec![0u8; 256];
    write_at(&mut img, 0, &sdt_header(*b"RSDT", 20, 1));
    let bridge = SliceBridge::new(img);
    assert!(RootTable::new(&legacy_rsdp(0), bridge).is_none());
}

#[test]
fn unmappable_pointer_is_skipped() {
    let mut img = vec![0u8; 1024];
    let mut apic = sdt_header(*b"APIC", 44, 1);
    apic.extend_from_slice(&[0u8; 8]);
    write_at(&mut img, 100, &apic);
    // Root table points at one good table and one address past memory.
    let mut rsdt = sdt_header(*b"RSDT", 44, 1);
    rsdt.extend_from_slice(&5000u32.to_le_bytes());
    rsdt.extend_from_slice(&100u32.to_le_bytes());
    write_at(&mut img, 300, &rsdt);
    let bridge = SliceBridge::new(img);
    let rt = RootTable::new(&legacy_rsdp(300), bridge).unwrap();
    let tables = rt.all_tables();
    assert_eq!(tables.len(), 1);
    assert_eq!(tables[0].header().signature, Signature(*b"APIC"));
}

#[test]
fn get_table_decodes_typed_view() {
    let img = two_table_image();
    let bridge = SliceBridge::new(img);
    let rt = RootTable::new(&legacy_rsdp(300), bridge).unwrap();
    let madt: Madt = rt.get_table::<Madt>(0).unwrap();
    assert_eq!(madt.header.signature, Signature(*b"APIC"));
    assert_eq!(madt.header.length, 44);
    assert_eq!(madt.local_intc_addr(), 0xfee0_0000);
    assert_eq!(madt.flags().0, 1);
    assert!(madt.entries().is_empty());
    // No second table with the signature.
    assert!(rt.get_table::<Madt>(1).is_none());
}

#[test]
fn header_fields_decode_exactly() {
    let img = two_table_image();
    let bridge = SliceBridge::new(img);
    let m = Mapped::new(100, &bridge).unwrap();
    let h = m.header();
    assert_eq!(h.signature, Signature(*b"APIC"));
    assert_eq!(h.length, 44);
    assert_eq!(h.revision, 1);
    assert_eq!(h.checksum, 0);
    assert_eq!(&h.oem_id, b"OEMIDA");
    assert_eq!(h.oem_table_id, 0);
    assert_eq!(h.oem_revision, 1);
    assert_eq!(h.creator_id, 2);
    assert_eq!(h.creator_revision, 3);
}
