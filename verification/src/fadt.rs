//! Fixed power-management description table: a fixed-layout overlay over
//! the table span, decoded field by field.

use crate::bytes::{le16_at, le32_at, le64_at, read_le16, read_le32, read_le64};
use crate::sdt::{parse_header, spec_header_of, Header, Sdt, Signature};
use vstd::prelude::*;

verus! {

/// Fixed power-management description table (signature `"FACP"`).
///
/// The view covers the fixed fields of the first table revision plus the
/// extended firmware-control and differentiated-table addresses; the two
/// extended addresses decode as zero when the span is too short to hold
/// them.
#[derive(Clone, Copy, Debug)]
pub struct Fadt {
    pub header: Header,
    pub firmware_ctrl: u32,
    pub dsdt: u32,
    pub preferred_pm_profile: u8,
    pub sci_int: u16,
    pub smi_cmd: u32,
    pub acpi_enable: u8,
    pub acpi_disable: u8,
    pub s4bios_req: u8,
    pub pstate_cnt: u8,
    pub pm1a_evt_blk: u32,
    pub pm1b_evt_blk: u32,
    pub pm1a_cnt_blk: u32,
    pub pm1b_cnt_blk: u32,
    pub pm2_cnt_blk: u32,
    pub pm_tmr_blk: u32,
    pub gpe0_blk: u32,
    pub gpe1_blk: u32,
    pub pm1_evt_len: u8,
    pub pm1_cnt_len: u8,
    pub pm2_cnt_len: u8,
    pub pm_tmr_len: u8,
    pub gpe0_blk_len: u8,
    pub gpe1_blk_len: u8,
    pub gpe1_base: u8,
    pub cst_cnt: u8,
    pub p_lvl2_lat: u16,
    pub p_lvl3_lat: u16,
    pub flush_size: u16,
    pub flush_stride: u16,
    pub duty_offset: u8,
    pub duty_width: u8,
    pub day_alrm: u8,
    pub mon_alrm: u8,
    pub century: u8,
    pub iapc_boot_arch: [u8; 2],
    pub flags: u32,
    pub x_firmware_ctrl: u64,
    pub x_dsdt: u64,
}

impl View for Fadt {
    type V = Fadt;

    open spec fn view(&self) -> Fadt {
        *self
    }
}

impl Sdt for Fadt {
    open spec fn signature_spec() -> Seq<u8> {
        seq![0x46u8, 0x41u8, 0x43u8, 0x50u8]
    }

    open spec fn min_len_spec() -> int {
        116
    }

    open spec fn parse_spec(b: Seq<u8>) -> Fadt {
        Fadt {
            header: spec_header_of(b),
            firmware_ctrl: le32_at(b, 36),
            dsdt: le32_at(b, 40),
            preferred_pm_profile: b[45],
            sci_int: le16_at(b, 46),
            smi_cmd: le32_at(b, 48),
            acpi_enable: b[52],
            acpi_disable: b[53],
            s4bios_req: b[54],
            pstate_cnt: b[55],
            pm1a_evt_blk: le32_at(b, 56),
            pm1b_evt_blk: le32_at(b, 60),
            pm1a_cnt_blk: le32_at(b, 64),
            pm1b_cnt_blk: le32_at(b, 68),
            pm2_cnt_blk: le32_at(b, 72),
            pm_tmr_blk: le32_at(b, 76),
            gpe0_blk: le32_at(b, 80),
            gpe1_blk: le32_at(b, 84),
            pm1_evt_len: b[88],
            pm1_cnt_len: b[89],
            pm2_cnt_len: b[90],
            pm_tmr_len: b[91],
            gpe0_blk_len: b[92],
            gpe1_blk_len: b[93],
            gpe1_base: b[94],
            cst_cnt: b[95],
            p_lvl2_lat: le16_at(b, 96),
            p_lvl3_lat: le16_at(b, 98),
            flush_size: le16_at(b, 100),
            flush_stride: le16_at(b, 102),
            duty_offset: b[104],
            duty_width: b[105],
            day_alrm: b[106],
            mon_alrm: b[107],
            century: b[108],
            iapc_boot_arch: [b[109], b[110]],
            flags: le32_at(b, 112),
            x_firmware_ctrl: if b.len() >= 140 {
                le64_at(b, 132)
            } else {
                0
            },
            x_dsdt: if b.len() >= 148 {
                le64_at(b, 140)
            } else {
                0
            },
        }
    }

    fn signature() -> (s: Signature) {
        let s = Signature([0x46, 0x41, 0x43, 0x50]);
        proof {
            assert(s@ =~= Self::signature_spec());
        }
        s
    }

    fn min_len() -> (n: usize) {
        116
    }

    fn parse(b: &[u8]) -> (t: Self) {
        let n = b.len();
        Fadt {
            header: parse_header(b),
            firmware_ctrl: read_le32(b, 36),
            dsdt: read_le32(b, 40),
            preferred_pm_profile: b[45],
            sci_int: read_le16(b, 46),
            smi_cmd: read_le32(b, 48),
            acpi_enable: b[52],
            acpi_disable: b[53],
            s4bios_req: b[54],
            pstate_cnt: b[55],
            pm1a_evt_blk: read_le32(b, 56),
            pm1b_evt_blk: read_le32(b, 60),
            pm1a_cnt_blk: read_le32(b, 64),
            pm1b_cnt_blk: read_le32(b, 68),
            pm2_cnt_blk: read_le32(b, 72),
            pm_tmr_blk: read_le32(b, 76),
            gpe0_blk: read_le32(b, 80),
            gpe1_blk: read_le32(b, 84),
            pm1_evt_len: b[88],
            pm1_cnt_len: b[89],
            pm2_cnt_len: b[90],
            pm_tmr_len: b[91],
            gpe0_blk_len: b[92],
            gpe1_blk_len: b[93],
            gpe1_base: b[94],
            cst_cnt: b[95],
            p_lvl2_lat: read_le16(b, 96),
            p_lvl3_lat: read_le16(b, 98),
            flush_size: read_le16(b, 100),
            flush_stride: read_le16(b, 102),
            duty_offset: b[104],
            duty_width: b[105],
            day_alrm: b[106],
            mon_alrm: b[107],
            century: b[108],
            iapc_boot_arch: [b[109], b[110]],
            flags: read_le32(b, 112),
            x_firmware_ctrl: if n >= 140 {
                read_le64(b, 132)
            } else {
                0
            },
            x_dsdt: if n >= 148 {
                read_le64(b, 140)
            } else {
                0
            },
        }
    }
}

impl Fadt {
    /// Returns the table's feature flags.
    pub fn flags(&self) -> (r: FadtFlags)
        ensures
            r.0 == self.flags,
    {
        FadtFlags(self.flags)
    }

    /// Returns the physical address of the differentiated table: the
    /// extended 64-bit address on revision 2 or later, else the legacy
    /// 32-bit address.
    pub fn dsdt(&self) -> (r: u64)
        ensures
            r == if self.header.revision >= 2 {
                self.x_dsdt
            } else {
                self.dsdt as u64
            },
    {
        if self.header.revision >= 2 {
            self.x_dsdt
        } else {
            self.dsdt as u64
        }
    }
}

/// Feature flags of the fixed power-management table.
#[derive(Clone, Copy, Debug, PartialEq, Eq, Structural)]
pub struct FadtFlags(pub u32);

impl FadtFlags {
    pub const WBINVD: u32 = 0x1;

    pub const WBINVD_FLUSH: u32 = 0x2;

    pub const PROC_C1: u32 = 0x4;

    pub const P_LVL2_UP: u32 = 0x8;

    pub const PWR_BUTTON: u32 = 0x10;

    pub const SLP_BUTTON: u32 = 0x20;

    pub const FIX_RTC: u32 = 0x40;

    pub const RTC_S4: u32 = 0x80;

    pub const TMR_VAL_EXT: u32 = 0x100;

    pub const DCK_CAP: u32 = 0x200;

    pub const RESET_REG_SUP: u32 = 0x400;

    pub const SEALED_CASE: u32 = 0x800;

    pub const HEADLESS: u32 = 0x1000;

    pub const CPU_SW_SLP: u32 = 0x2000;

    pub const PCI_EXP_WAK: u32 = 0x4000;

    pub const USE_PLATFORM_CLOCK: u32 = 0x8000;

    pub const S4_RTC_STS_VALID: u32 = 0x10000;

    pub const REMOTE_POWER_ON_CAPABLE: u32 = 0x20000;

    pub const FORCE_APIC_CLUSTER_MODEL: u32 = 0x40000;

    pub const FORCE_APIC_PHYSICAL_DESTINATION_MODE: u32 = 0x80000;

    pub const HW_REDUCED_ACPI: u32 = 0x100000;

    pub const LOW_POWER_S0_IDLE_CAPABLE: u32 = 0x200000;

    pub const PERSISTENT_CPU_CACHES_0: u32 = 0x400000;

    pub const PERSISTENT_CPU_CACHES_1: u32 = 0x800000;

    /// True when every bit of `bits` is set.
    pub fn contains(&self, bits: u32) -> (r: bool)
        ensures
            r == ((self.0 & bits) == bits),
    {
        (self.0 & bits) == bits
    }

    /// True when any bit of `bits` is set.
    pub fn intersects(&self, bits: u32) -> (r: bool)
        ensures
            r == ((self.0 & bits) != 0),
    {
        (self.0 & bits) != 0
    }
}

/// Preferred power-management profile reported by the table.
#[derive(Clone, Copy, Debug, PartialEq, Eq, Hash, PartialOrd, Ord)]
pub enum PreferredPmProfile {
    Desktop,
    Mobile,
    Workstation,
    EnterpriseServer,
    SohoServer,
    AppliancePc,
    PerformanceServer,
    Tablet,
}

/// Legacy-device boot-architecture flags.
#[derive(Clone, Copy, Debug, PartialEq, Eq, Structural)]
pub struct IapcBootFlags(pub u16);

impl IapcBootFlags {
    pub const LEGACY_DEVICES: u16 = 0x1;

    pub const I8042: u16 = 0x2;

    pub const VGA_NOT_PRESENT: u16 = 0x4;

    pub const MSI_NOT_SUPPORTED: u16 = 0x8;

    pub const PCIE_ASPM_CONTROLS: u16 = 0x10;

    pub const CMOS_RTC_NOT_PRESENT: u16 = 0x20;
}

/// Boot-architecture flags of platforms using the power-state
/// coordination interface.
#[derive(Clone, Copy, Debug, PartialEq, Eq, Structural)]
pub struct ArmBootFlags(pub u16);

impl ArmBootFlags {
    pub const PSCI_COMPLIANT: u16 = 0x1;

    pub const PSCI_USE_HVC: u16 = 0x2;
}

/// Flags of the firmware control structure.
#[derive(Clone, Copy, Debug, PartialEq, Eq, Structural)]
pub struct FacsFlags(pub u32);

impl FacsFlags {
    pub const S4BIOS_F: u32 = 0x1;

    pub const WAKE_64BIT_SUPPORTED_F: u32 = 0x2;
}

/// Flags the operating system writes into the firmware control structure.
#[derive(Clone, Copy, Debug, PartialEq, Eq, Structural)]
pub struct OspmFlags(pub u32);

impl OspmFlags {
    pub const WAKE_64BIT_F: u32 = 0x1;
}

/// Firmware control structure: a fixed-layout structure named by the
/// fixed power-management table, with its own (non-header) layout.
#[derive(Clone, Copy, Debug)]
pub struct Facs {
    pub signature: [u8; 4],
    pub length: u32,
    pub hardware_signature: u64,
    pub firmware_waking_vector: [u8; 12],
    pub global_lock: u32,
    pub flags: FacsFlags,
    pub x_firmware_waking_vector: u64,
    pub version: u8,
    pub ospm_flags: OspmFlags,
}

} // verus!
