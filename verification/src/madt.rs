//! Interrupt-controller description table and its sub-record walker.
//!
//! The table's tail is a packed stream of variably-sized sub-records,
//! each prefixed by a 1-byte type tag and a 1-byte total length. The
//! walker decodes the stream front to back and stops at the first record
//! that would reach past the container's bound.

use crate::bytes::{le16_at, le32_at, le64_at, read_le16, read_le32, read_le64};
use crate::sdt::{parse_header, spec_header_of, Header, Sdt, Signature};
use vstd::prelude::*;
use vstd::slice::{slice_subrange, slice_to_vec};

verus! {

/// Table-level flags of the interrupt-controller table.
#[derive(Clone, Copy, Debug, PartialEq, Eq, Structural)]
pub struct MadtFlags(pub u32);

impl MadtFlags {
    /// The system also has a PC-AT-compatible dual-8259 setup.
    pub const PCAT_COMPAT: u32 = 1;

    /// True when every bit of `bits` is set.
    pub fn contains(&self, bits: u32) -> (r: bool)
        ensures
            r == ((self.0 & bits) == bits),
    {
        (self.0 & bits) == bits
    }

    /// True when any bit of `bits` is set.
    pub fn intersects(&self, bits: u32) -> (r: bool)
        ensures
            r == ((self.0 & bits) != 0),
    {
        (self.0 & bits) != 0
    }
}

/// Flags of a local interrupt controller entry.
#[derive(Clone, Copy, Debug, PartialEq, Eq, Structural)]
pub struct LocalApicFlags(pub u32);

impl LocalApicFlags {
    /// The processor is ready for use.
    pub const ENABLED: u32 = 1;

    /// The processor can be enabled at runtime (meaningful only when
    /// `ENABLED` is clear).
    pub const ONLINE_CAPABLE: u32 = 2;

    /// True when every bit of `bits` is set.
    pub fn contains(&self, bits: u32) -> (r: bool)
        ensures
            r == ((self.0 & bits) == bits),
    {
        (self.0 & bits) == bits
    }

    /// True when any bit of `bits` is set.
    pub fn intersects(&self, bits: u32) -> (r: bool)
        ensures
            r == ((self.0 & bits) != 0),
    {
        (self.0 & bits) != 0
    }
}

/// Flags of a hart-local interrupt controller entry.
#[derive(Clone, Copy, Debug, PartialEq, Eq, Structural)]
pub struct RiscvIntcFlags(pub u32);

impl RiscvIntcFlags {
    /// The hart is ready for use.
    pub const ENABLED: u32 = 1;

    /// The hart can be enabled at runtime (meaningful only when `ENABLED`
    /// is clear).
    pub const ONLINE_CAPABLE: u32 = 2;

    /// True when every bit of `bits` is set.
    pub fn contains(&self, bits: u32) -> (r: bool)
        ensures
            r == ((self.0 & bits) == bits),
    {
        (self.0 & bits) == bits
    }

    /// True when any bit of `bits` is set.
    pub fn intersects(&self, bits: u32) -> (r: bool)
        ensures
            r == ((self.0 & bits) != 0),
    {
        (self.0 & bits) != 0
    }
}

/// Flags of a generic interrupt controller CPU interface entry.
#[derive(Clone, Copy, Debug, PartialEq, Eq, Structural)]
pub struct GicCpuInterfaceFlags(pub u32);

impl GicCpuInterfaceFlags {
    pub const ENABLED: u32 = 1;

    pub const PERFORMANCE_INTERRUPT_MODE: u32 = 2;

    pub const VGIC_MAINTENANCE_INTERRUPT_MODE_FLAGS: u32 = 4;

    pub const ONLINE_CAPABLE: u32 = 8;
}

/// Polarity and trigger-mode flags of an interrupt source.
#[derive(Clone, Copy, Debug, PartialEq, Eq, Structural)]
pub struct InterruptSourceFlags(pub u16);

impl InterruptSourceFlags {
    pub const POLARITY_MASK: u16 = 0x0003;

    pub const TRIGGER_MASK: u16 = 0x000c;
}

/// Polarity and trigger-mode flags of an interrupt source override.
#[derive(Clone, Copy, Debug, PartialEq, Eq, Structural)]
pub struct InterruptSourceOverrideFlags(pub u16);

impl InterruptSourceOverrideFlags {
    pub const POLARITY_MASK: u16 = 0x0003;

    pub const TRIGGER_MASK: u16 = 0x000c;
}

/// Processor-local interrupt controller entry (tag 0x00).
#[derive(Clone, Copy, Debug, PartialEq, Eq, Structural)]
pub struct LocalApic {
    pub acpi_processor_uid: u8,
    pub apic_id: u8,
    pub flags: u32,
}

impl LocalApic {
    /// Returns the processor UID for the CPU this controller belongs to.
    pub fn acpi_processor_uid(&self) -> (r: u32)
        ensures
            r == self.acpi_processor_uid as u32,
    {
        self.acpi_processor_uid as u32
    }

    /// Returns the controller's own id.
    pub fn apic_id(&self) -> (r: u32)
        ensures
            r == self.apic_id as u32,
    {
        self.apic_id as u32
    }

    pub fn flags(&self) -> (r: LocalApicFlags)
        ensures
            r.0 == self.flags,
    {
        LocalApicFlags(self.flags)
    }
}

/// I/O interrupt controller entry (tag 0x01).
#[derive(Clone, Copy, Debug, PartialEq, Eq, Structural)]
pub struct IoApic {
    pub io_apic_id: u8,
    pub reserved: u8,
    pub io_apic_addr: u32,
    pub gsi_base: u32,
}

impl IoApic {
    /// Returns the controller's own id.
    pub fn io_apic_id(&self) -> (r: u32)
        ensures
            r == self.io_apic_id as u32,
    {
        self.io_apic_id as u32
    }

    /// Returns the controller's base physical address.
    pub fn io_apic_addr(&self) -> (r: u32)
        ensures
            r == self.io_apic_addr,
    {
        self.io_apic_addr
    }

    /// Returns the first global system interrupt this controller serves.
    pub fn gsi_base(&self) -> (r: u32)
        ensures
            r == self.gsi_base,
    {
        self.gsi_base
    }
}

/// Interrupt source override entry (tag 0x02).
#[derive(Clone, Copy, Debug, PartialEq, Eq, Structural)]
pub struct InterruptSourceOverride {
    pub bus: u8,
    pub source: u8,
    pub global_system_interrupt: u32,
    pub flags: u16,
}

impl InterruptSourceOverride {
    /// Returns the bus-relative interrupt source as `(bus, irq)`.
    pub fn source(&self) -> (r: (u8, u8))
        ensures
            r.0 == self.bus,
            r.1 == self.source,
    {
        (self.bus, self.source)
    }

    /// Returns the global system interrupt this source signals.
    pub fn global_system_interrupt(&self) -> (r: u32)
        ensures
            r == self.global_system_interrupt,
    {
        self.global_system_interrupt
    }

    pub fn flags(&self) -> (r: InterruptSourceFlags)
        ensures
            r.0 == self.flags,
    {
        InterruptSourceFlags(self.flags)
    }
}

/// Non-maskable interrupt source entry (tag 0x03).
#[derive(Clone, Copy, Debug, PartialEq, Eq, Structural)]
pub struct NmiSource {
    pub flags: u16,
    pub global_system_interrupt: u32,
}

impl NmiSource {
    pub fn flags(&self) -> (r: InterruptSourceFlags)
        ensures
            r.0 == self.flags,
    {
        InterruptSourceFlags(self.flags)
    }

    /// Returns the global system interrupt this source signals.
    pub fn global_system_interrupt(&self) -> (r: u32)
        ensures
            r == self.global_system_interrupt,
    {
        self.global_system_interrupt
    }
}

/// Local controller non-maskable interrupt connection entry (tag 0x04).
#[derive(Clone, Copy, Debug, PartialEq, Eq, Structural)]
pub struct LocalApicNmi {
    pub acpi_processor_uid: u32,
    pub flags: u16,
    pub local_apic_lintn: u8,
}

impl LocalApicNmi {
    /// Returns the processor UID the connection belongs to.
    pub fn acpi_processor_uid(&self) -> (r: u32)
        ensures
            r == self.acpi_processor_uid,
    {
        self.acpi_processor_uid
    }

    pub fn flags(&self) -> (r: InterruptSourceFlags)
        ensures
            r.0 == self.flags,
    {
        InterruptSourceFlags(self.flags)
    }

    /// Returns the local interrupt pin the connection uses.
    pub fn local_apic_lintn(&self) -> (r: u8)
        ensures
            r == self.local_apic_lintn,
    {
        self.local_apic_lintn
    }
}

/// 64-bit local controller address override entry (tag 0x05).
#[derive(Clone, Copy, Debug, PartialEq, Eq, Structural)]
pub struct LocalApicAddressOverride {
    pub reserved: u16,
    pub local_apic_addr: u64,
}

/// Extended processor-local interrupt controller entry (tag 0x09).
#[derive(Clone, Copy, Debug, PartialEq, Eq, Structural)]
pub struct LocalX2Apic {
    pub reserved: u16,
    pub x2apic_id: u32,
    pub flags: u32,
    pub acpi_processor_uid: u32,
}

impl LocalX2Apic {
    pub fn acpi_processor_uid(&self) -> (r: u32)
        ensures
            r == self.acpi_processor_uid,
    {
        self.acpi_processor_uid
    }
}

/// Extended local controller non-maskable interrupt entry (tag 0x0a).
#[derive(Clone, Copy, Debug, PartialEq, Eq, Structural)]
pub struct LocalX2ApicNmi {
    pub flags: u16,
    pub acpi_processor_uid: u32,
    pub local_x2apic_lintn: u8,
}

impl LocalX2ApicNmi {
    pub fn acpi_processor_uid(&self) -> (r: u32)
        ensures
            r == self.acpi_processor_uid,
    {
        self.acpi_processor_uid
    }

    pub fn flags(&self) -> (r: InterruptSourceFlags)
        ensures
            r.0 == self.flags,
    {
        InterruptSourceFlags(self.flags)
    }
}

/// Generic interrupt controller CPU interface entry (tag 0x0b).
#[derive(Clone, Copy, Debug, PartialEq, Eq, Structural)]
pub struct GicCpuInterface {
    pub cpu_interface_number: u32,
    pub acpi_processor_uid: u32,
    pub flags: u32,
    pub parking_protocol_version: u32,
    pub performance_interrupt_gsiv: u32,
    pub parked_addr: u64,
    pub physical_base_addr: u64,
    pub gicv: u64,
    pub gich: u64,
    pub vgic_maintenance_interrupt: u32,
    pub gicr_base_addr: u64,
    pub mpidr: u64,
    pub processor_power_efficiency_class: u8,
    pub spe_overflow_interrupt: u16,
    pub trbe_interrupt: u16,
}

impl GicCpuInterface {
    pub fn acpi_processor_uid(&self) -> (r: u32)
        ensures
            r == self.acpi_processor_uid,
    {
        self.acpi_processor_uid
    }
}

/// Generic interrupt controller distributor entry (tag 0x0c).
#[derive(Clone, Copy, Debug, PartialEq, Eq, Structural)]
pub struct GicDistributor {
    pub gic_id: u32,
    pub phys_base_addr: u64,
    pub system_vector_base: u32,
    pub gic_version: u8,
}

/// Generic interrupt controller message-signalled interrupt frame entry
/// (tag 0x0d).
#[derive(Clone, Copy, Debug, PartialEq, Eq, Structural)]
pub struct GicMsiFrame {
    pub gic_msi_frame_id: u32,
    pub phys_base_addr: u64,
    pub flags: u32,
    pub spi_count: u16,
    pub spi_base: u16,
}

/// Generic interrupt controller redistributor entry (tag 0x0e).
#[derive(Clone, Copy, Debug, PartialEq, Eq, Structural)]
pub struct GicRedistributor {
    pub discovery_range_base_addr: u64,
    pub discovery_range_length: u32,
}

/// Generic interrupt controller translation service entry (tag 0x0f).
#[derive(Clone, Copy, Debug, PartialEq, Eq, Structural)]
pub struct GicInterruptTranslationService {
    pub gic_its_id: u32,
    pub phys_base_addr: u64,
}

/// Multiprocessor wakeup mailbox entry (tag 0x10).
#[derive(Clone, Copy, Debug, PartialEq, Eq, Structural)]
pub struct MultiprocessorWakeup {
    pub mailbox_version: u16,
    pub mailbox_addr: u64,
}

/// Hart-local interrupt controller entry (tag 0x18).
#[derive(Clone, Copy, Debug, PartialEq, Eq, Structural)]
pub struct RiscvIntc {
    pub version: u8,
    pub flags: u32,
    pub hartid: u64,
    pub acpi_processor_uid: u32,
}

impl RiscvIntc {
    pub fn flags(&self) -> (r: RiscvIntcFlags)
        ensures
            r.0 == self.flags,
    {
        RiscvIntcFlags(self.flags)
    }

    /// Returns the hart id of the hart this controller belongs to.
    pub fn hartid(&self) -> (r: u64)
        ensures
            r == self.hartid,
    {
        self.hartid
    }

    /// Returns the processor UID of the hart this controller belongs to.
    pub fn acpi_processor_uid(&self) -> (r: u32)
        ensures
            r == self.acpi_processor_uid,
    {
        self.acpi_processor_uid
    }

    /// The hart is usable: it is enabled, or can be enabled at runtime.
    pub fn is_startable(&self) -> (r: bool)
        ensures
            r == ((self.flags & 3) != 0),
    {
        (self.flags & 3) != 0
    }
}

/// A sub-record with an unrecognized type tag, kept as its raw byte span
/// (everything after the 2-byte record header).
#[derive(Debug)]
pub struct Unknown {
    pub entry_type: u8,
    pub data: Vec<u8>,
}

/// View of an unrecognized sub-record.
pub struct UnknownV {
    pub entry_type: u8,
    pub data: Seq<u8>,
}

/// One decoded sub-record of the interrupt-controller table.
pub enum Entry {
    LocalApic(LocalApic),
    IoApic(IoApic),
    InterruptSourceOverride(InterruptSourceOverride),
    NmiSource(NmiSource),
    LocalApicNmi(LocalApicNmi),
    LocalApicAddressOverride(LocalApicAddressOverride),
    LocalX2Apic(LocalX2Apic),
    LocalX2ApicNmi(LocalX2ApicNmi),
    GicCpuInterface(GicCpuInterface),
    GicDistributor(GicDistributor),
    GicMsiFrame(GicMsiFrame),
    GicRedistributor(GicRedistributor),
    GicInterruptTranslationService(GicInterruptTranslationService),
    MultiprocessorWakeup(MultiprocessorWakeup),
    RiscvIntc(RiscvIntc),
    Unknown(Unknown),
}

/// View of one decoded sub-record.
pub enum EntryV {
    LocalApic(LocalApic),
    IoApic(IoApic),
    InterruptSourceOverride(InterruptSourceOverride),
    NmiSource(NmiSource),
    LocalApicNmi(LocalApicNmi),
    LocalApicAddressOverride(LocalApicAddressOverride),
    LocalX2Apic(LocalX2Apic),
    LocalX2ApicNmi(LocalX2ApicNmi),
    GicCpuInterface(GicCpuInterface),
    GicDistributor(GicDistributor),
    GicMsiFrame(GicMsiFrame),
    GicRedistributor(GicRedistributor),
    GicInterruptTranslationService(GicInterruptTranslationService),
    MultiprocessorWakeup(MultiprocessorWakeup),
    RiscvIntc(RiscvIntc),
    Unknown(UnknownV),
}

impl View for Entry {
    type V = EntryV;

    open spec fn view(&self) -> EntryV {
        match self {
            Entry::LocalApic(e) => EntryV::LocalApic(*e),
            Entry::IoApic(e) => EntryV::IoApic(*e),
            Entry::InterruptSourceOverride(e) => EntryV::InterruptSourceOverride(*e),
            Entry::NmiSource(e) => EntryV::NmiSource(*e),
            Entry::LocalApicNmi(e) => EntryV::LocalApicNmi(*e),
            Entry::LocalApicAddressOverride(e) => EntryV::LocalApicAddressOverride(*e),
            Entry::LocalX2Apic(e) => EntryV::LocalX2Apic(*e),
            Entry::LocalX2ApicNmi(e) => EntryV::LocalX2ApicNmi(*e),
            Entry::GicCpuInterface(e) => EntryV::GicCpuInterface(*e),
            Entry::GicDistributor(e) => EntryV::GicDistributor(*e),
            Entry::GicMsiFrame(e) => EntryV::GicMsiFrame(*e),
            Entry::GicRedistributor(e) => EntryV::GicRedistributor(*e),
            Entry::GicInterruptTranslationService(e) => EntryV::GicInterruptTranslationService(*e),
            Entry::MultiprocessorWakeup(e) => EntryV::MultiprocessorWakeup(*e),
            Entry::RiscvIntc(e) => EntryV::RiscvIntc(*e),
            Entry::Unknown(u) => EntryV::Unknown(
                UnknownV { entry_type: u.entry_type, data: u.data@ },
            ),
        }
    }
}

/// The sub-record encoded in the complete record span `rec` (the record's
/// declared length of bytes, starting at its type tag).
///
/// A record whose tag is recognized but whose length is shorter than that
/// shape's size is kept opaque, like one with an unknown tag.
pub open spec fn spec_entry_of(rec: Seq<u8>) -> EntryV
    recommends
        rec.len() >= 2,
{
    let tag = rec[0];
    if tag == 0x00 && rec.len() >= 8 {
        EntryV::LocalApic(
            LocalApic {
                acpi_processor_uid: rec[2],
                apic_id: rec[3],
                flags: le32_at(rec, 4),
            },
        )
    } else if tag == 0x01 && rec.len() >= 12 {
        EntryV::IoApic(
            IoApic {
                io_apic_id: rec[2],
                reserved: rec[3],
                io_apic_addr: le32_at(rec, 4),
                gsi_base: le32_at(rec, 8),
            },
        )
    } else if tag == 0x02 && rec.len() >= 10 {
        EntryV::InterruptSourceOverride(
            InterruptSourceOverride {
                bus: rec[2],
                source: rec[3],
                global_system_interrupt: le32_at(rec, 4),
                flags: le16_at(rec, 8),
            },
        )
    } else if tag == 0x03 && rec.len() >= 8 {
        EntryV::NmiSource(
            NmiSource { flags: le16_at(rec, 2), global_system_interrupt: le32_at(rec, 4) },
        )
    } else if tag == 0x04 && rec.len() >= 9 {
        EntryV::LocalApicNmi(
            LocalApicNmi {
                acpi_processor_uid: le32_at(rec, 2),
                flags: le16_at(rec, 6),
                local_apic_lintn: rec[8],
            },
        )
    } else if tag == 0x05 && rec.len() >= 12 {
        EntryV::LocalApicAddressOverride(
            LocalApicAddressOverride {
                reserved: le16_at(rec, 2),
                local_apic_addr: le64_at(rec, 4),
            },
        )
    } else if tag == 0x09 && rec.len() >= 16 {
        EntryV::LocalX2Apic(
            LocalX2Apic {
                reserved: le16_at(rec, 2),
                x2apic_id: le32_at(rec, 4),
                flags: le32_at(rec, 8),
                acpi_processor_uid: le32_at(rec, 12),
            },
        )
    } else if tag == 0x0a && rec.len() >= 12 {
        EntryV::LocalX2ApicNmi(
            LocalX2ApicNmi {
                flags: le16_at(rec, 2),
                acpi_processor_uid: le32_at(rec, 4),
                local_x2apic_lintn: rec[8],
            },
        )
    } else if tag == 0x0b && rec.len() >= 82 {
        EntryV::GicCpuInterface(
            GicCpuInterface {
                cpu_interface_number: le32_at(rec, 4),
                acpi_processor_uid: le32_at(rec, 8),
                flags: le32_at(rec, 12),
                parking_protocol_version: le32_at(rec, 16),
                performance_interrupt_gsiv: le32_at(rec, 20),
                parked_addr: le64_at(rec, 24),
                physical_base_addr: le64_at(rec, 32),
                gicv: le64_at(rec, 40),
                gich: le64_at(rec, 48),
                vgic_maintenance_interrupt: le32_at(rec, 56),
                gicr_base_addr: le64_at(rec, 60),
                mpidr: le64_at(rec, 68),
                processor_power_efficiency_class: rec[76],
                spe_overflow_interrupt: le16_at(rec, 78),
                trbe_interrupt: le16_at(rec, 80),
            },
        )
    } else if tag == 0x0c && rec.len() >= 24 {
        EntryV::GicDistributor(
            GicDistributor {
                gic_id: le32_at(rec, 4),
                phys_base_addr: le64_at(rec, 8),
                system_vector_base: le32_at(rec, 16),
                gic_version: rec[20],
            },
        )
    } else if tag == 0x0d && rec.len() >= 24 {
        EntryV::GicMsiFrame(
            GicMsiFrame {
                gic_msi_frame_id: le32_at(rec, 4),
                phys_base_addr: le64_at(rec, 8),
                flags: le32_at(rec, 16),
                spi_count: le16_at(rec, 20),
                spi_base: le16_at(rec, 22),
            },
        )
    } else if tag == 0x0e && rec.len() >= 16 {
        EntryV::GicRedistributor(
            GicRedistributor {
                discovery_range_base_addr: le64_at(rec, 4),
                discovery_range_length: le32_at(rec, 12),
            },
        )
    } else if tag == 0x0f && rec.len() >= 20 {
        EntryV::GicInterruptTranslationService(
            GicInterruptTranslationService {
                gic_its_id: le32_at(rec, 4),
                phys_base_addr: le64_at(rec, 8),
            },
        )
    } else if tag == 0x10 && rec.len() >= 16 {
        EntryV::MultiprocessorWakeup(
            MultiprocessorWakeup {
                mailbox_version: le16_at(rec, 2),
                mailbox_addr: le64_at(rec, 8),
            },
        )
    } else if tag == 0x18 && rec.len() >= 20 {
        EntryV::RiscvIntc(
            RiscvIntc {
                version: rec[2],
                flags: le32_at(rec, 4),
                hartid: le64_at(rec, 8),
                acpi_processor_uid: le32_at(rec, 16),
            },
        )
    } else {
        EntryV::Unknown(UnknownV { entry_type: tag, data: rec.skip(2) })
    }
}

/// Decodes the sub-record held in the complete record span `rec`.
pub fn parse_entry(rec: &[u8]) -> (e: Entry)
    requires
        rec@.len() >= 2,
    ensures
        e@ == spec_entry_of(rec@),
{
    let n = rec.len();
    let tag = rec[0];
    if tag == 0x00 && n >= 8 {
        Entry::LocalApic(
            LocalApic {
                acpi_processor_uid: rec[2],
                apic_id: rec[3],
                flags: read_le32(rec, 4),
            },
        )
    } else if tag == 0x01 && n >= 12 {
        Entry::IoApic(
            IoApic {
                io_apic_id: rec[2],
                reserved: rec[3],
                io_apic_addr: read_le32(rec, 4),
                gsi_base: read_le32(rec, 8),
            },
        )
    } else if tag == 0x02 && n >= 10 {
        Entry::InterruptSourceOverride(
            InterruptSourceOverride {
                bus: rec[2],
                source: rec[3],
                global_system_interrupt: read_le32(rec, 4),
                flags: read_le16(rec, 8),
            },
        )
    } else if tag == 0x03 && n >= 8 {
        Entry::NmiSource(
            NmiSource { flags: read_le16(rec, 2), global_system_interrupt: read_le32(rec, 4) },
        )
    } else if tag == 0x04 && n >= 9 {
        Entry::LocalApicNmi(
            LocalApicNmi {
                acpi_processor_uid: read_le32(rec, 2),
                flags: read_le16(rec, 6),
                local_apic_lintn: rec[8],
            },
        )
    } else if tag == 0x05 && n >= 12 {
        Entry::LocalApicAddressOverride(
            LocalApicAddressOverride {
                reserved: read_le16(rec, 2),
                local_apic_addr: read_le64(rec, 4),
            },
        )
    } else if tag == 0x09 && n >= 16 {
        Entry::LocalX2Apic(
            LocalX2Apic {
                reserved: read_le16(rec, 2),
                x2apic_id: read_le32(rec, 4),
                flags: read_le32(rec, 8),
                acpi_processor_uid: read_le32(rec, 12),
            },
        )
    } else if tag == 0x0a && n >= 12 {
        Entry::LocalX2ApicNmi(
            LocalX2ApicNmi {
                flags: read_le16(rec, 2),
                acpi_processor_uid: read_le32(rec, 4),
                local_x2apic_lintn: rec[8],
            },
        )
    } else if tag == 0x0b && n >= 82 {
        Entry::GicCpuInterface(
            GicCpuInterface {
                cpu_interface_number: read_le32(rec, 4),
                acpi_processor_uid: read_le32(rec, 8),
                flags: read_le32(rec, 12),
                parking_protocol_version: read_le32(rec, 16),
                performance_interrupt_gsiv: read_le32(rec, 20),
                parked_addr: read_le64(rec, 24),
                physical_base_addr: read_le64(rec, 32),
                gicv: read_le64(rec, 40),
                gich: read_le64(rec, 48),
                vgic_maintenance_interrupt: read_le32(rec, 56),
                gicr_base_addr: read_le64(rec, 60),
                mpidr: read_le64(rec, 68),
                processor_power_efficiency_class: rec[76],
                spe_overflow_interrupt: read_le16(rec, 78),
                trbe_interrupt: read_le16(rec, 80),
            },
        )
    } else if tag == 0x0c && n >= 24 {
        Entry::GicDistributor(
            GicDistributor {
                gic_id: read_le32(rec, 4),
                phys_base_addr: read_le64(rec, 8),
                system_vector_base: read_le32(rec, 16),
                gic_version: rec[20],
            },
        )
    } else if tag == 0x0d && n >= 24 {
        Entry::GicMsiFrame(
            GicMsiFrame {
                gic_msi_frame_id: read_le32(rec, 4),
                phys_base_addr: read_le64(rec, 8),
                flags: read_le32(rec, 16),
                spi_count: read_le16(rec, 20),
                spi_base: read_le16(rec, 22),
            },
        )
    } else if tag == 0x0e && n >= 16 {
        Entry::GicRedistributor(
            GicRedistributor {
                discovery_range_base_addr: read_le64(rec, 4),
                discovery_range_length: read_le32(rec, 12),
            },
        )
    } else if tag == 0x0f && n >= 20 {
        Entry::GicInterruptTranslationService(
            GicInterruptTranslationService {
                gic_its_id: read_le32(rec, 4),
                phys_base_addr: read_le64(rec, 8),
            },
        )
    } else if tag == 0x10 && n >= 16 {
        Entry::MultiprocessorWakeup(
            MultiprocessorWakeup {
                mailbox_version: read_le16(rec, 2),
                mailbox_addr: read_le64(rec, 8),
            },
        )
    } else if tag == 0x18 && n >= 20 {
        Entry::RiscvIntc(
            RiscvIntc {
                version: rec[2],
                flags: read_le32(rec, 4),
                hartid: read_le64(rec, 8),
                acpi_processor_uid: read_le32(rec, 16),
            },
        )
    } else {
        let data = slice_to_vec(slice_subrange(rec, 2, n));
        proof {
            assert(data@ =~= rec@.skip(2));
        }
        Entry::Unknown(Unknown { entry_type: tag, data })
    }
}

/// The sub-records encoded in the record region `ics` from offset `off`
/// onward: records are decoded front to back; the walk ends at the region
/// bound, at a record whose declared length is shorter than its own
/// header, or at a record that would reach past the bound.
pub open spec fn spec_entries_from(ics: Seq<u8>, off: int) -> Seq<EntryV>
    decreases ics.len() - off,
    when 0 <= off
{
    if off + 2 > ics.len() {
        Seq::empty()
    } else {
        let ln = ics[off + 1] as int;
        if ln < 2 || off + ln > ics.len() {
            Seq::empty()
        } else {
            seq![spec_entry_of(ics.subrange(off, off + ln))] + spec_entries_from(ics, off + ln)
        }
    }
}


/// All sub-records encoded in the record region `ics`.
pub open spec fn spec_entries(ics: Seq<u8>) -> Seq<EntryV> {
    spec_entries_from(ics, 0)
}

/// The byte ranges `(start, end)` of the records the walker emits from
/// offset `off`, in emission order.
pub open spec fn spec_entry_spans(ics: Seq<u8>, off: int) -> Seq<(int, int)>
    decreases ics.len() - off,
    when 0 <= off
{
    if off + 2 > ics.len() {
        Seq::empty()
    } else {
        let ln = ics[off + 1] as int;
        if ln < 2 || off + ln > ics.len() {
            Seq::empty()
        } else {
            seq![(off, off + ln)] + spec_entry_spans(ics, off + ln)
        }
    }
}

/// The walker emits exactly one record per span.
pub proof fn lemma_walker_len(ics: Seq<u8>, off: int)
    requires
        0 <= off,
    ensures
        spec_entries_from(ics, off).len() == spec_entry_spans(ics, off).len(),
    decreases ics.len() - off,
{
    if off + 2 <= ics.len() {
        let ln = ics[off + 1] as int;
        if !(ln < 2 || off + ln > ics.len()) {
            lemma_walker_len(ics, off + ln);
        }
    }
}

/// Sub-record walker containment: the walker emits one record per span,
/// every emitted record's span lies completely inside the region (so no
/// record starts at or past the region's length), and each emitted record
/// is exactly the decode of its span's bytes.
pub proof fn lemma_walker_bounded(ics: Seq<u8>, off: int, k: int)
    requires
        0 <= off,
        0 <= k < spec_entry_spans(ics, off).len(),
    ensures
        spec_entries_from(ics, off).len() == spec_entry_spans(ics, off).len(),
        off <= spec_entry_spans(ics, off)[k].0,
        spec_entry_spans(ics, off)[k].0 + 2 <= spec_entry_spans(ics, off)[k].1,
        spec_entry_spans(ics, off)[k].1 <= ics.len(),
        spec_entries_from(ics, off)[k] == spec_entry_of(
            ics.subrange(spec_entry_spans(ics, off)[k].0, spec_entry_spans(ics, off)[k].1),
        ),
    decreases ics.len() - off,
{
    lemma_walker_len(ics, off);
    let ln = ics[off + 1] as int;
    if k > 0 {
        lemma_walker_bounded(ics, off + ln, k - 1);
    }
}

/// Unknown-tag records are preserved: a record with a type tag no shape
/// recognizes decodes to an opaque record holding the tag and every byte
/// after the 2-byte record header, never a known shape.
pub proof fn lemma_unknown_preserved(rec: Seq<u8>)
    requires
        rec.len() >= 2,
        !spec_known_tag(rec[0]),
    ensures
        spec_entry_of(rec) == EntryV::Unknown(
            UnknownV { entry_type: rec[0], data: rec.skip(2) },
        ),
        spec_entry_of(rec)->Unknown_0.data.len() == rec.len() - 2,
{
}

/// The type tags the walker can decode to a known shape.
pub open spec fn spec_known_tag(tag: u8) -> bool {
    ||| tag == 0x00
    ||| tag == 0x01
    ||| tag == 0x02
    ||| tag == 0x03
    ||| tag == 0x04
    ||| tag == 0x05
    ||| tag == 0x09
    ||| tag == 0x0a
    ||| tag == 0x0b
    ||| tag == 0x0c
    ||| tag == 0x0d
    ||| tag == 0x0e
    ||| tag == 0x0f
    ||| tag == 0x10
    ||| tag == 0x18
}

/// Interrupt-controller description table (signature `"APIC"`).
pub struct Madt {
    /// Common table header.
    pub header: Header,
    /// Physical address of the local interrupt controller block.
    pub local_intc_addr: u32,
    /// Table-level flags.
    pub flags: u32,
    /// Raw byte stream of the packed sub-records.
    pub ics: Vec<u8>,
}

/// View of the interrupt-controller description table.
pub struct MadtV {
    pub header: Header,
    pub local_intc_addr: u32,
    pub flags: u32,
    pub ics: Seq<u8>,
}

impl View for Madt {
    type V = MadtV;

    open spec fn view(&self) -> MadtV {
        MadtV {
            header: self.header,
            local_intc_addr: self.local_intc_addr,
            flags: self.flags,
            ics: self.ics@,
        }
    }
}

impl Sdt for Madt {
    open spec fn signature_spec() -> Seq<u8> {
        seq![0x41u8, 0x50u8, 0x49u8, 0x43u8]
    }

    open spec fn min_len_spec() -> int {
        44
    }

    open spec fn parse_spec(b: Seq<u8>) -> MadtV {
        MadtV {
            header: spec_header_of(b),
            local_intc_addr: le32_at(b, 36),
            flags: le32_at(b, 40),
            ics: b.skip(44),
        }
    }

    fn signature() -> (s: Signature) {
        let s = Signature([0x41, 0x50, 0x49, 0x43]);
        proof {
            assert(s@ =~= Self::signature_spec());
        }
        s
    }

    fn min_len() -> (n: usize) {
        44
    }

    fn parse(b: &[u8]) -> (t: Self) {
        let header = parse_header(b);
        let local_intc_addr = read_le32(b, 36);
        let flags = read_le32(b, 40);
        let ics = slice_to_vec(slice_subrange(b, 44, b.len()));
        proof {
            assert(ics@ =~= b@.skip(44));
        }
        Madt { header, local_intc_addr, flags, ics }
    }
}

impl Madt {
    /// Returns the table-level flags.
    pub fn flags(&self) -> (r: MadtFlags)
        ensures
            r.0 == self.flags,
    {
        MadtFlags(self.flags)
    }

    /// Returns the physical address of the local interrupt controller
    /// block.
    pub fn local_intc_addr(&self) -> (r: u32)
        ensures
            r == self.local_intc_addr,
    {
        self.local_intc_addr
    }

    /// Decodes every sub-record of the table, in storage order.
    pub fn entries(&self) -> (r: Vec<Entry>)
        ensures
            r@.map_values(|e: Entry| e@) == spec_entries(self.ics@),
    {
        let ics = self.ics.as_slice();
        let n = ics.len();
        let mut out: Vec<Entry> = Vec::new();
        let mut off: usize = 0;
        while n - off >= 2
            invariant
                off <= n,
                n == ics@.len(),
                ics@ == self.ics@,
                spec_entries(self.ics@) == out@.map_values(|e: Entry| e@) + spec_entries_from(
                    ics@,
                    off as int,
                ),
            decreases n - off,
        {
            let ghost prev = out@.map_values(|e: Entry| e@);
            let ln = ics[off + 1] as usize;
            if ln < 2 || ln > n - off {
                proof {
                    assert(spec_entries_from(ics@, off as int) =~= Seq::<EntryV>::empty());
                    assert(out@.map_values(|e: Entry| e@) =~= spec_entries(self.ics@));
                }
                return out;
            }
            let rec = slice_subrange(ics, off, off + ln);
            let e = parse_entry(rec);
            out.push(e);
            proof {
                assert(out@.map_values(|e: Entry| e@) =~= prev.push(
                    spec_entry_of(ics@.subrange(off as int, off + ln)),
                ));
                assert(prev.push(spec_entry_of(ics@.subrange(off as int, off + ln)))
                    =~= prev + seq![spec_entry_of(ics@.subrange(off as int, off + ln))]);
            }
            off = off + ln;
        }
        proof {
            assert(spec_entries_from(ics@, off as int) =~= Seq::<EntryV>::empty());
            assert(out@.map_values(|e: Entry| e@) =~= spec_entries(self.ics@));
        }
        out
    }
}

} // verus!

