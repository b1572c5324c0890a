//! Discovery and decoding of firmware system description tables.
//!
//! The crate models firmware memory as byte spans obtained through a
//! [`sdt::Bridge`], and every table view is parsed from such a span with
//! verified bounds checks.

use vstd::prelude::*;

pub mod bytes;
pub mod fadt;
pub mod madt;
pub mod mcfg;
pub mod rhct;
pub mod sdt;

pub use sdt::{RootTable, Sdt};

verus! {

/// Root pointer structure that names the root table.
#[derive(Clone, Copy, Debug)]
pub struct Rsdp {
    pub signature: [u8; 8],
    pub checksum: u8,
    pub oem_id: [u8; 6],
    pub revision: u8,
    pub rsdt_addr: u32,
    pub length: u32,
    pub xsdt_addr: u64,
    pub x_checksum: u8,
    pub reserved: [u8; 3],
}

/// The root pointer structure encoded little-endian at the start of `b`:
/// 20 bytes of legacy fields, then (revision 2 and later only) 16 bytes
/// of extended fields, which otherwise decode as zero.
pub open spec fn spec_rsdp_of(b: Seq<u8>) -> Rsdp
    recommends
        b.len() >= 20,
        b[15] < 2 || b.len() >= 36,
{
    Rsdp {
        signature: [b[0], b[1], b[2], b[3], b[4], b[5], b[6], b[7]],
        checksum: b[8],
        oem_id: [b[9], b[10], b[11], b[12], b[13], b[14]],
        revision: b[15],
        rsdt_addr: bytes::le32_at(b, 16),
        length: if b[15] >= 2 {
            bytes::le32_at(b, 20)
        } else {
            0
        },
        xsdt_addr: if b[15] >= 2 {
            bytes::le64_at(b, 24)
        } else {
            0
        },
        x_checksum: if b[15] >= 2 {
            b[32]
        } else {
            0
        },
        reserved: if b[15] >= 2 {
            [b[33], b[34], b[35]]
        } else {
            [0, 0, 0]
        },
    }
}

impl Rsdp {
    /// Decodes a root pointer structure from `b`: nothing when `b` is
    /// shorter than the legacy structure, or shorter than the extended
    /// structure while the revision byte asks for one.
    pub fn parse(b: &[u8]) -> (r: Option<Rsdp>)
        ensures
            r is Some <==> b@.len() >= 20 && (b@[15] < 2 || b@.len() >= 36),
            r is Some ==> r->Some_0 == spec_rsdp_of(b@),
    {
        let n = b.len();
        if n < 20 {
            return None;
        }
        let revision = b[15];
        if revision >= 2 && n < 36 {
            return None;
        }
        let r = Rsdp {
            signature: [b[0], b[1], b[2], b[3], b[4], b[5], b[6], b[7]],
            checksum: b[8],
            oem_id: [b[9], b[10], b[11], b[12], b[13], b[14]],
            revision,
            rsdt_addr: bytes::read_le32(b, 16),
            length: if revision >= 2 {
                bytes::read_le32(b, 20)
            } else {
                0
            },
            xsdt_addr: if revision >= 2 {
                bytes::read_le64(b, 24)
            } else {
                0
            },
            x_checksum: if revision >= 2 {
                b[32]
            } else {
                0
            },
            reserved: if revision >= 2 {
                [b[33], b[34], b[35]]
            } else {
                [0, 0, 0]
            },
        };
        Some(r)
    }
}

} // verus!
