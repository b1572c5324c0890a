use acpi_sdt::madt::{
    Entry, InterruptSourceFlags, InterruptSourceOverrideFlags, IoApic, LocalApic, LocalApicFlags,
    Madt, MadtFlags, RiscvIntc, RiscvIntcFlags,
};
use acpi_sdt::sdt::{Header, RootTable, Signature, SliceBridge};
use acpi_sdt::Rsdp;

fn madt_with(ics: Vec<u8>) -> Madt {
    let header = Header {
        signature: Signature(*b"APIC"),
        length: 44 + ics.len() as u32,
        revision: 1,
        checksum: 0,
        oem_id: *b"OEMIDA",
        oem_table_id: 0,
        oem_revision: 0,
        creator_id: 0,
        creator_revision: 0,
    };
    Madt { header, local_intc_addr: 0xfee0_0000, flags: 1, ics }
}

fn local_apic_record(uid: u8, apic_id: u8, flags: u32) -> Vec<u8> {
    let mut v = vec![0x00, 8, uid, apic_id];
    v.extend_from_slice(&flags.to_le_bytes());
    v
}

fn io_apic_record(id: u8, addr: u32, gsi_base: u32) -> Vec<u8> {
    let mut v = vec![0x01, 12, id, 0];
    v.extend_from_slice(&addr.to_le_bytes());
    v.extend_from_slice(&gsi_base.to_le_bytes());
    v
}

#[test]
fn walker_yields_two_records_in_order() {
    // One 8-byte local controller record followed by one 12-byte I/O
    // controller record, then the container ends.
    let mut ics = local_apic_record(7, 9, 1);
    ics.extend_from_slice(&io_apic_record(3, 0xfec0_0000, 32));
    let madt = madt_with(ics);
    let entries = madt.entries();
    assert_eq!(entries.len(), 2);
    match &entries[0] {
        Entry::LocalApic(e) => {
            assert_eq!(*e, LocalApic { acpi_processor_uid: 7, apic_id: 9, flags: 1 });
            assert_eq!(e.acpi_processor_uid(), 7);
            assert_eq!(e.apic_id(), 9);
            assert!(e.flags().contains(LocalApicFlags::ENABLED));
            assert!(!e.flags().intersects(LocalApicFlags::ONLINE_CAPABLE));
        },
        _ => panic!("first record should be a local controller entry"),
    }
    match &entries[1] {
        Entry::IoApic(e) => {
            assert_eq!(
                *e,
                IoApic { io_apic_id: 3, reserved: 0, io_apic_addr: 0xfec0_0000, gsi_base: 32 },
            );
            assert_eq!(e.io_apic_id(), 3);
            assert_eq!(e.io_apic_addr(), 0xfec0_0000);
            assert_eq!(e.gsi_base(), 32);
        },
        _ => panic!("second record should be an I/O controller entry"),
    }
}

#[test]
fn walker_stops_before_truncated_record() {
    // The second record declares 14 bytes but only 12 remain: the walker
    // yields only the first record and no partial one.
    let mut ics = local_apic_record(7, 9, 1);
    let mut io = io_apic_record(3, 0xfec0_0000, 32);
    io[1] = 14; // declared length reaches 2 bytes past the container
    ics.extend_from_slice(&io);
    let madt = madt_with(ics);
    let entries = madt.entries();
    assert_eq!(entries.len(), 1);
    assert!(matches!(entries[0], Entry::LocalApic(_)));
}

#[test]
fn walker_stops_on_undersized_length() {
    // A record whose declared length is smaller than its own 2-byte
    // header stops the walk instead of looping.
    let mut ics = local_apic_record(1, 2, 0);
    ics.extend_from_slice(&[0x00, 1, 0xaa, 0xbb]);
    let madt = madt_with(ics);
    let entries = madt.entries();
    assert_eq!(entries.len(), 1);
}

#[test]
fn unknown_tag_preserved_as_opaque_span() {
    // Tag 0x77 is no known shape: the record is kept with its tag and its
    // 5 data bytes, and the walk goes on past it.
    let mut ics = vec![0x77, 7, 1, 2, 3, 4, 5];
    ics.extend_from_slice(&local_apic_record(7, 9, 1));
    let madt = madt_with(ics);
    let entries = madt.entries();
    assert_eq!(entries.len(), 2);
    match &entries[0] {
        Entry::Unknown(u) => {
            assert_eq!(u.entry_type, 0x77);
            assert_eq!(u.data, vec![1, 2, 3, 4, 5]);
        },
        _ => panic!("unrecognized tag should stay opaque"),
    }
    assert!(matches!(entries[1], Entry::LocalApic(_)));
}

#[test]
fn known_tag_too_short_stays_opaque() {
    // Tag 0x00 names an 8-byte shape; a 4-byte record cannot be that
    // shape and is kept opaque instead of misread.
    let ics = vec![0x00, 4, 0xaa, 0xbb];
    let madt = madt_with(ics);
    let entries = madt.entries();
    assert_eq!(entries.len(), 1);
    match &entries[0] {
        Entry::Unknown(u) => {
            assert_eq!(u.entry_type, 0x00);
            assert_eq!(u.data, vec![0xaa, 0xbb]);
        },
        _ => panic!("undersized record should stay opaque"),
    }
}

#[test]
fn hart_local_controller_record_decodes() {
    let mut rec = vec![0x18, 20, 1, 0];
    rec.extend_from_slice(&1u32.to_le_bytes()); // flags: enabled
    rec.extend_from_slice(&5u64.to_le_bytes()); // hart id
    rec.extend_from_slice(&11u32.to_le_bytes()); // processor uid
    let madt = madt_with(rec);
    let entries = madt.entries();
    assert_eq!(entries.len(), 1);
    match &entries[0] {
        Entry::RiscvIntc(e) => {
            assert_eq!(
                *e,
                RiscvIntc { version: 1, flags: 1, hartid: 5, acpi_processor_uid: 11 },
            );
            assert_eq!(e.hartid(), 5);
            assert_eq!(e.acpi_processor_uid(), 11);
            assert!(e.flags().contains(RiscvIntcFlags::ENABLED));
            assert!(e.is_startable());
        },
        _ => panic!("record should be a hart-local controller entry"),
    }
}

#[test]
fn startable_follows_enable_bits() {
    let enabled = RiscvIntc { version: 1, flags: 1, hartid: 0, acpi_processor_uid: 0 };
    let online = RiscvIntc { version: 1, flags: 2, hartid: 0, acpi_processor_uid: 0 };
    let neither = RiscvIntc { version: 1, flags: 4, hartid: 0, acpi_processor_uid: 0 };
    assert!(enabled.is_startable());
    assert!(online.is_startable());
    assert!(!neither.is_startable());
}

#[test]
fn table_flags_and_masks() {
    let madt = madt_with(Vec::new());
    assert!(madt.flags().contains(MadtFlags::PCAT_COMPAT));
    assert_eq!(InterruptSourceFlags::POLARITY_MASK, 0x0003);
    assert_eq!(InterruptSourceFlags::TRIGGER_MASK, 0x000c);
    assert_eq!(InterruptSourceOverrideFlags::POLARITY_MASK, 0x0003);
    assert_eq!(InterruptSourceOverrideFlags::TRIGGER_MASK, 0x000c);
}

#[test]
fn override_and_nmi_records_decode() {
    let mut ics = vec![0x02, 10, 0, 9];
    ics.extend_from_slice(&9u32.to_le_bytes());
    ics.extend_from_slice(&0x000du16.to_le_bytes());
    ics.extend_from_slice(&[0x03, 8]);
    ics.extend_from_slice(&0x0005u16.to_le_bytes());
    ics.extend_from_slice(&2u32.to_le_bytes());
    let madt = madt_with(ics);
    let entries = madt.entries();
    assert_eq!(entries.len(), 2);
    match &entries[0] {
        Entry::InterruptSourceOverride(e) => {
            assert_eq!(e.source(), (0, 9));
            assert_eq!(e.global_system_interrupt(), 9);
            assert_eq!(e.flags().0, 0x000d);
        },
        _ => panic!("first record should be an override entry"),
    }
    match &entries[1] {
        Entry::NmiSource(e) => {
            assert_eq!(e.flags().0, 0x0005);
            assert_eq!(e.global_system_interrupt(), 2);
        },
        _ => panic!("second record should be a non-maskable source entry"),
    }
}

#[test]
fn walker_runs_end_to_end_from_root() {
    // A complete image: root pointer structure fields, root table, and an
    // interrupt-controller table holding one local controller record.
    let mut img = vec![0u8; 512];
    let mut apic: Vec<u8> = Vec::new();
    apic.extend_from_slice(b"APIC");
    apic.extend_from_slice(&52u32.to_le_bytes()); // 44 fixed bytes + one 8-byte record
    apic.extend_from_slice(&[1, 0]); // revision, checksum
    apic.extend_from_slice(b"OEMIDA");
    apic.extend_from_slice(&[0u8; 20]); // oem table id, revisions, creator
    apic.extend_from_slice(&0xfee0_0000u32.to_le_bytes());
    apic.extend_from_slice(&1u32.to_le_bytes());
    apic.extend_from_slice(&local_apic_record(4, 5, 1));
    assert_eq!(apic.len(), 52);
    img[100..152].copy_from_slice(&apic);
    let mut rsdt: Vec<u8> = Vec::new();
    rsdt.extend_from_slice(b"RSDT");
    rsdt.extend_from_slice(&40u32.to_le_bytes());
    rsdt.extend_from_slice(&[1, 0]);
    rsdt.extend_from_slice(b"OEMIDA");
    rsdt.extend_from_slice(&[0u8; 20]);
    rsdt.extend_from_slice(&100u32.to_le_bytes());
    img[200..240].copy_from_slice(&rsdt);
    let rsdp = Rsdp {
        signature: *b"RSD PTR ",
        checksum: 0,
        oem_id: *b"OEMIDA",
        revision: 1,
        rsdt_addr: 200,
        length: 0,
        xsdt_addr: 0,
        x_checksum: 0,
        reserved: [0; 3],
    };
    let rt = RootTable::new(&rsdp, SliceBridge::new(img)).unwrap();
    let madt = rt.get_table::<Madt>(0).unwrap();
    assert_eq!(madt.header.length, 52);
    let entries = madt.entries();
    assert_eq!(entries.len(), 1);
    match &entries[0] {
        Entry::LocalApic(e) => {
            assert_eq!(e.acpi_processor_uid(), 4);
            assert_eq!(e.apic_id(), 5);
        },
        _ => panic!("the one record is a local controller entry"),
    }
}
