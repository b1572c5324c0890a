//! Memory-mapped configuration-space description table: a fixed-stride
//! list of configuration regions.

use crate::bytes::{le16_at, le32_at, le64_at, read_le16, read_le32, read_le64};
use crate::sdt::{parse_header, spec_header_of, Header, Sdt, Signature};
use vstd::prelude::*;

verus! {

/// One memory-mapped configuration region: a 16-byte fixed-stride record.
#[derive(Clone, Copy, Debug, PartialEq, Eq, Structural)]
pub struct Entry {
    pub ecam_base: u64,
    pub segment: u16,
    pub bus_start: u8,
    pub bus_end: u8,
    pub reserved: u32,
}

/// The region record encoded at offset `off` of `b`.
pub open spec fn spec_mcfg_entry_at(b: Seq<u8>, off: int) -> Entry
    recommends
        0 <= off,
        off + 16 <= b.len(),
{
    Entry {
        ecam_base: le64_at(b, off),
        segment: le16_at(b, off + 8),
        bus_start: b[off + 10],
        bus_end: b[off + 11],
        reserved: le32_at(b, off + 12),
    }
}

/// Memory-mapped configuration-space description table (signature
/// `"MCFG"`): after the header and 8 reserved bytes, a packed array of
/// 16-byte region records whose count is derived from the table span.
pub struct Mcfg {
    /// Common table header.
    pub header: Header,
    /// Decoded region records, in storage order.
    pub entries: Vec<Entry>,
}

/// View of the configuration-space description table.
pub struct McfgV {
    pub header: Header,
    pub entries: Seq<Entry>,
}

impl View for Mcfg {
    type V = McfgV;

    open spec fn view(&self) -> McfgV {
        McfgV { header: self.header, entries: self.entries@ }
    }
}

impl Sdt for Mcfg {
    open spec fn signature_spec() -> Seq<u8> {
        seq![0x4du8, 0x43u8, 0x46u8, 0x47u8]
    }

    open spec fn min_len_spec() -> int {
        44
    }

    open spec fn parse_spec(b: Seq<u8>) -> McfgV {
        McfgV {
            header: spec_header_of(b),
            entries: Seq::new(
                (((b.len() - 44) as int) / 16) as nat,
                |i: int| spec_mcfg_entry_at(b, 44 + 16 * i),
            ),
        }
    }

    fn signature() -> (s: Signature) {
        let s = Signature([0x4d, 0x43, 0x46, 0x47]);
        proof {
            assert(s@ =~= Self::signature_spec());
        }
        s
    }

    fn min_len() -> (n: usize) {
        44
    }

    fn parse(b: &[u8]) -> (t: Self) {
        let n = b.len();
        let header = parse_header(b);
        let count = (n - 44) / 16;
        proof {
            assert(16 * (((n - 44) as int) / 16) <= n - 44) by (nonlinear_arith)
                requires
                    n >= 44,
            ;
        }
        let mut entries: Vec<Entry> = Vec::new();
        let mut i: usize = 0;
        while i < count
            invariant
                44 <= n <= usize::MAX,
                n == b@.len(),
                count == ((n - 44) as int) / 16,
                16 * count <= n - 44,
                i <= count,
                entries@ == Self::parse_spec(b@).entries.take(i as int),
            decreases count - i,
        {
            proof {
                assert(16 * (i as int) + 16 <= 16 * (count as int)) by (nonlinear_arith)
                    requires
                        i < count,
                ;
            }
            let off = 44 + 16 * i;
            let e = Entry {
                ecam_base: read_le64(b, off),
                segment: read_le16(b, off + 8),
                bus_start: b[off + 10],
                bus_end: b[off + 11],
                reserved: read_le32(b, off + 12),
            };
            entries.push(e);
            proof {
                assert(entries@ =~= Self::parse_spec(b@).entries.take(i + 1));
            }
            i = i + 1;
        }
        proof {
            assert(entries@ =~= Self::parse_spec(b@).entries);
        }
        Mcfg { header, entries }
    }
}

impl Mcfg {
    /// Returns the decoded region records, in storage order.
    pub fn entries(&self) -> (r: &Vec<Entry>)
        ensures
            r@ == self@.entries,
    {
        &self.entries
    }
}

} // verus!
