//! Hart-capability description table and its node walker.
//!
//! The table's tail is a packed stream of variably-sized nodes, each
//! prefixed by a 6-byte node header (2-byte type tag, 2-byte total
//! length, 2-byte revision). Some nodes reference other nodes by a byte
//! offset relative to the start of the whole table; such a lookup is
//! rejected when the referenced node does not lie completely inside the
//! table span.

use crate::bytes::{le16_at, le32_at, le64_at, read_le16, read_le32, read_le64};
use crate::sdt::{parse_header, spec_header_of, Sdt, Signature};
use vstd::prelude::*;
use vstd::slice::{slice_subrange, slice_to_vec};

verus! {

/// Table-level flags of the hart-capability table.
#[derive(Clone, Copy, Debug, PartialEq, Eq, Structural)]
pub struct RhctFlags(pub u32);

impl RhctFlags {
    /// The system counter cannot wake a sleeping hart.
    pub const TIMER_CANNOT_WAKE: u32 = 1;

    /// True when every bit of `bits` is set.
    pub fn contains(&self, bits: u32) -> (r: bool)
        ensures
            r == ((self.0 & bits) == bits),
    {
        (self.0 & bits) == bits
    }
}

/// Type tag of a node.
#[derive(Clone, Copy, Debug, PartialEq, Eq, Structural)]
pub struct NodeType(pub u16);

impl NodeType {
    pub const ISA_STRING: u16 = 0;

    pub const CMO_INFO: u16 = 1;

    pub const MMU_INFO: u16 = 2;

    pub const HART_INFO: u16 = 65535;
}

/// Common 6-byte header that prefixes every node.
#[derive(Clone, Copy, Debug, PartialEq, Eq, Structural)]
pub struct Header {
    pub node_type: NodeType,
    pub len: u16,
    pub revision: u16,
}

impl Header {
    /// Returns the node's type tag.
    pub fn node_type(self) -> (r: NodeType)
        ensures
            r == self.node_type,
    {
        self.node_type
    }

    /// Returns the length of the entire node, in bytes.
    pub fn len(self) -> (r: usize)
        ensures
            r == self.len as usize,
    {
        self.len as usize
    }

    /// True when the node's declared length is zero.
    pub fn is_empty(self) -> (r: bool)
        ensures
            r == (self.len == 0),
    {
        self.len == 0
    }
}

/// The node header encoded at offset `off` of `b`.
pub open spec fn spec_node_header_of(b: Seq<u8>, off: int) -> Header
    recommends
        0 <= off,
        off + 6 <= b.len(),
{
    Header {
        node_type: NodeType(le16_at(b, off)),
        len: le16_at(b, off + 2),
        revision: le16_at(b, off + 4),
    }
}

/// Reads the node header at offset `off`.
pub fn parse_node_header(b: &[u8], off: usize) -> (h: Header)
    requires
        off + 6 <= b@.len(),
    ensures
        h == spec_node_header_of(b@, off as int),
{
    let _n: usize = b.len();
    Header {
        node_type: NodeType(read_le16(b, off)),
        len: read_le16(b, off + 2),
        revision: read_le16(b, off + 4),
    }
}

/// Capability-string node (type tag 0).
#[derive(Debug)]
pub struct IsaString {
    pub header: Header,
    /// Declared length of the capability string, including its NUL
    /// terminator.
    pub isa_string_len: u16,
    /// Raw string bytes (everything after the fixed node prefix).
    pub isa_string: Vec<u8>,
}

/// View of a capability-string node.
pub struct IsaStringV {
    pub header: Header,
    pub isa_string_len: u16,
    pub isa_string: Seq<u8>,
}

impl View for IsaString {
    type V = IsaStringV;

    open spec fn view(&self) -> IsaStringV {
        IsaStringV {
            header: self.header,
            isa_string_len: self.isa_string_len,
            isa_string: self.isa_string@,
        }
    }
}

/// The length of the capability string without its NUL terminator, when
/// the declared length is consistent with the node's actual bytes.
pub open spec fn spec_isa_len(v: IsaStringV) -> int {
    if v.isa_string_len == 0 {
        0
    } else if v.isa_string_len - 1 <= v.isa_string.len() {
        v.isa_string_len - 1
    } else {
        v.isa_string.len() as int
    }
}

impl IsaString {
    /// Returns the length of the capability string in bytes, without its
    /// NUL terminator; a declared length of zero, or one that reaches
    /// past the node's bytes, is clamped.
    pub fn len(&self) -> (r: usize)
        ensures
            r as int == spec_isa_len(self@),
    {
        let n = self.isa_string.len();
        if self.isa_string_len == 0 {
            0
        } else if (self.isa_string_len - 1) as usize <= n {
            (self.isa_string_len - 1) as usize
        } else {
            n
        }
    }

    /// True when the capability string is empty.
    pub fn is_empty(&self) -> (r: bool)
        ensures
            r == (spec_isa_len(self@) == 0),
    {
        self.len() == 0
    }

    /// Returns the capability string's bytes, without the NUL terminator.
    pub fn as_bytes(&self) -> (r: &[u8])
        ensures
            r@ == self.isa_string@.take(spec_isa_len(self@)),
    {
        slice_subrange(self.isa_string.as_slice(), 0, self.len())
    }
}

/// Cache-operation node (type tag 1): block sizes as powers of two.
#[derive(Clone, Copy, Debug, PartialEq, Eq, Structural)]
pub struct CmoInfo {
    pub header: Header,
    pub cbom_block_size: u8,
    pub cbop_block_size: u8,
    pub cboz_block_size: u8,
}

impl CmoInfo {
    /// Returns the block size for cache block management instructions.
    pub fn cbom_block_size(&self) -> (r: usize)
        requires
            self.cbom_block_size < 32,
        ensures
            r == (1usize << self.cbom_block_size),
    {
        1usize << self.cbom_block_size
    }

    /// Returns the block size for cache block prefetch instructions.
    pub fn cbop_block_size(&self) -> (r: usize)
        requires
            self.cbop_block_size < 32,
        ensures
            r == (1usize << self.cbop_block_size),
    {
        1usize << self.cbop_block_size
    }

    /// Returns the block size for cache block zero instructions.
    pub fn cboz_block_size(&self) -> (r: usize)
        requires
            self.cboz_block_size < 32,
        ensures
            r == (1usize << self.cboz_block_size),
    {
        1usize << self.cboz_block_size
    }
}

/// Address-translation mode of a memory-management unit.
#[derive(Clone, Copy, Debug, PartialEq, Eq, Structural)]
pub struct MmuType(pub u16);

impl MmuType {
    pub const SV39: u16 = 0;

    pub const SV48: u16 = 1;

    pub const SV57: u16 = 2;
}

/// Memory-management-unit node (type tag 2).
#[derive(Clone, Copy, Debug, PartialEq, Eq, Structural)]
pub struct MmuInfo {
    pub header: Header,
    pub mmu_type: MmuType,
}

/// A node with an unrecognized type tag, kept as its raw byte span
/// (everything after the 6-byte node header).
#[derive(Debug)]
pub struct Unknown {
    pub header: Header,
    pub data: Vec<u8>,
}

/// View of an unrecognized node.
pub struct UnknownV {
    pub header: Header,
    pub data: Seq<u8>,
}

/// One decoded capability node.
pub enum Entry {
    IsaString(IsaString),
    CmoInfo(CmoInfo),
    MmuInfo(MmuInfo),
    Unknown(Unknown),
}

/// View of one decoded capability node.
pub enum EntryV {
    IsaString(IsaStringV),
    CmoInfo(CmoInfo),
    MmuInfo(MmuInfo),
    Unknown(UnknownV),
}

impl View for Entry {
    type V = EntryV;

    open spec fn view(&self) -> EntryV {
        match self {
            Entry::IsaString(e) => EntryV::IsaString(e@),
            Entry::CmoInfo(e) => EntryV::CmoInfo(*e),
            Entry::MmuInfo(e) => EntryV::MmuInfo(*e),
            Entry::Unknown(u) => EntryV::Unknown(UnknownV { header: u.header, data: u.data@ }),
        }
    }
}

/// The node encoded in the complete node span `node` (the node's declared
/// length of bytes, starting at its type tag).
///
/// A node whose tag is recognized but whose length is shorter than that
/// shape's size is kept opaque, like one with an unknown tag.
pub open spec fn spec_node_of(node: Seq<u8>) -> EntryV
    recommends
        node.len() >= 6,
{
    let h = spec_node_header_of(node, 0);
    let t = le16_at(node, 0);
    if t == 0 && node.len() >= 8 {
        EntryV::IsaString(
            IsaStringV {
                header: h,
                isa_string_len: le16_at(node, 6),
                isa_string: node.skip(8),
            },
        )
    } else if t == 1 && node.len() >= 10 {
        EntryV::CmoInfo(
            CmoInfo {
                header: h,
                cbom_block_size: node[7],
                cbop_block_size: node[8],
                cboz_block_size: node[9],
            },
        )
    } else if t == 2 && node.len() >= 9 {
        EntryV::MmuInfo(MmuInfo { header: h, mmu_type: MmuType(le16_at(node, 7)) })
    } else {
        EntryV::Unknown(UnknownV { header: h, data: node.skip(6) })
    }
}

/// Decodes the node held in the complete node span `node`.
pub fn parse_node(node: &[u8]) -> (e: Entry)
    requires
        node@.len() >= 6,
    ensures
        e@ == spec_node_of(node@),
{
    let n = node.len();
    let h = parse_node_header(node, 0);
    let t = h.node_type.0;
    if t == 0 && n >= 8 {
        let isa_string = slice_to_vec(slice_subrange(node, 8, n));
        proof {
            assert(isa_string@ =~= node@.skip(8));
        }
        Entry::IsaString(
            IsaString { header: h, isa_string_len: read_le16(node, 6), isa_string },
        )
    } else if t == 1 && n >= 10 {
        Entry::CmoInfo(
            CmoInfo {
                header: h,
                cbom_block_size: node[7],
                cbop_block_size: node[8],
                cboz_block_size: node[9],
            },
        )
    } else if t == 2 && n >= 9 {
        Entry::MmuInfo(MmuInfo { header: h, mmu_type: MmuType(read_le16(node, 7)) })
    } else {
        let data = slice_to_vec(slice_subrange(node, 6, n));
        proof {
            assert(data@ =~= node@.skip(6));
        }
        Entry::Unknown(Unknown { header: h, data })
    }
}

/// The node found at the table-relative byte offset `off` of the table
/// span `b`, or nothing when the offset points before the node region or
/// the node (header or declared length) would reach past the table span.
pub open spec fn spec_node_at(b: Seq<u8>, off: int) -> Option<EntryV> {
    if !(56 <= off && off + 6 <= b.len()) {
        None
    } else {
        let ln = le16_at(b, off + 2) as int;
        if ln < 6 || off + ln > b.len() {
            None
        } else {
            Some(spec_node_of(b.subrange(off, off + ln)))
        }
    }
}


/// Per-hart capability node (type tag 65535): the processor UID and the
/// table-relative offsets of the capability nodes that apply to the hart.
#[derive(Debug)]
pub struct HartInfo {
    pub header: Header,
    pub offsets_len: u16,
    pub acpi_processor_uid: u32,
    pub offsets: Vec<u32>,
}

/// View of a per-hart capability node.
pub struct HartInfoV {
    pub header: Header,
    pub offsets_len: u16,
    pub acpi_processor_uid: u32,
    pub offsets: Seq<u32>,
}

impl View for HartInfo {
    type V = HartInfoV;

    open spec fn view(&self) -> HartInfoV {
        HartInfoV {
            header: self.header,
            offsets_len: self.offsets_len,
            acpi_processor_uid: self.acpi_processor_uid,
            offsets: self.offsets@,
        }
    }
}

/// The per-hart node encoded in the complete node span `node`: the
/// trailing offset array's element count is derived from the node's
/// actual length.
pub open spec fn spec_hart_info_of(node: Seq<u8>) -> HartInfoV
    recommends
        node.len() >= 12,
{
    HartInfoV {
        header: spec_node_header_of(node, 0),
        offsets_len: le16_at(node, 6),
        acpi_processor_uid: le32_at(node, 8),
        offsets: Seq::new(
            (((node.len() - 12) as int) / 4) as nat,
            |i: int| le32_at(node, 12 + 4 * i),
        ),
    }
}

/// Decodes the per-hart node held in the complete node span `node`.
pub fn parse_hart_info(node: &[u8]) -> (h: HartInfo)
    requires
        node@.len() >= 12,
    ensures
        h@ == spec_hart_info_of(node@),
{
    let n = node.len();
    let header = parse_node_header(node, 0);
    let offsets_len = read_le16(node, 6);
    let acpi_processor_uid = read_le32(node, 8);
    let count = (n - 12) / 4;
    proof {
        assert(4 * (((n - 12) as int) / 4) <= n - 12) by (nonlinear_arith)
            requires
                n >= 12,
        ;
    }
    let mut offsets: Vec<u32> = Vec::new();
    let mut i: usize = 0;
    while i < count
        invariant
            12 <= n <= usize::MAX,
            n == node@.len(),
            count == ((n - 12) as int) / 4,
            4 * count <= n - 12,
            i <= count,
            offsets@ == spec_hart_info_of(node@).offsets.take(i as int),
        decreases count - i,
    {
        proof {
            assert(4 * (i as int) + 4 <= 4 * (count as int)) by (nonlinear_arith)
                requires
                    i < count,
            ;
        }
        let o = read_le32(node, 12 + 4 * i);
        offsets.push(o);
        proof {
            assert(offsets@ =~= spec_hart_info_of(node@).offsets.take(i + 1));
        }
        i = i + 1;
    }
    proof {
        assert(offsets@ =~= spec_hart_info_of(node@).offsets);
    }
    HartInfo { header, offsets_len, acpi_processor_uid, offsets }
}

/// The capability nodes named by a per-hart node's offset array, in array
/// order; an offset whose node lookup is rejected contributes nothing.
pub open spec fn spec_hart_entries(b: Seq<u8>, offsets: Seq<u32>) -> Seq<EntryV>
    decreases offsets.len(),
{
    if offsets.len() == 0 {
        Seq::empty()
    } else {
        let rest = spec_hart_entries(b, offsets.drop_first());
        match spec_node_at(b, offsets[0] as int) {
            Some(e) => seq![e] + rest,
            None => rest,
        }
    }
}

impl HartInfo {
    /// Returns the processor UID of the hart this node describes.
    pub fn acpi_processor_uid(&self) -> (r: u32)
        ensures
            r == self.acpi_processor_uid,
    {
        self.acpi_processor_uid
    }

    /// Looks up and decodes, in array order, every capability node this
    /// hart references by offset into `rhct`; a rejected (out-of-range)
    /// offset contributes nothing.
    pub fn entries(&self, rhct: &Rhct) -> (r: Vec<Entry>)
        ensures
            r@.map_values(|e: Entry| e@) == spec_hart_entries(rhct.bytes@, self.offsets@),
    {
        let mut out: Vec<Entry> = Vec::new();
        let n = self.offsets.len();
        let mut i: usize = 0;
        proof {
            assert(self.offsets@.skip(0) =~= self.offsets@);
        }
        while i < n
            invariant
                i <= n,
                n == self.offsets@.len(),
                spec_hart_entries(rhct.bytes@, self.offsets@) == out@.map_values(|e: Entry| e@)
                    + spec_hart_entries(rhct.bytes@, self.offsets@.skip(i as int)),
            decreases n - i,
        {
            let ghost prev = out@.map_values(|e: Entry| e@);
            proof {
                assert(self.offsets@.skip(i as int).drop_first() =~= self.offsets@.skip(i + 1));
            }
            let o = self.offsets[i];
            match rhct.get_node(o as usize) {
                Some(e) => {
                    out.push(e);
                    proof {
                        let ev = spec_node_at(rhct.bytes@, o as int)->Some_0;
                        assert(out@.map_values(|e: Entry| e@) =~= prev.push(ev));
                        assert(prev.push(ev) =~= prev + seq![ev]);
                    }
                },
                None => {},
            }
            i = i + 1;
        }
        proof {
            assert(self.offsets@.skip(n as int) =~= Seq::<u32>::empty());
        }
        out
    }
}

/// The per-hart nodes encoded in the table span `b`, walking at most
/// `count` nodes from the table-relative offset `off`: the walk ends at a
/// node whose header or declared length reaches past the table span, or
/// whose length is shorter than its own header; per-hart nodes shorter
/// than their fixed prefix are skipped.
pub open spec fn spec_nodes_from(b: Seq<u8>, off: int, count: int) -> Seq<HartInfoV>
    decreases count,
{
    if count <= 0 {
        Seq::empty()
    } else if !(56 <= off && off + 6 <= b.len()) {
        Seq::empty()
    } else {
        let ln = le16_at(b, off + 2) as int;
        if ln < 6 || off + ln > b.len() {
            Seq::empty()
        } else {
            let rest = spec_nodes_from(b, off + ln, count - 1);
            if le16_at(b, off) == 65535 && ln >= 12 {
                seq![spec_hart_info_of(b.subrange(off, off + ln))] + rest
            } else {
                rest
            }
        }
    }
}

/// Hart-capability description table (signature `"RHCT"`).
pub struct Rhct {
    /// Common table header.
    pub header: crate::sdt::Header,
    /// Table-level flags.
    pub flags: u32,
    /// Frequency of the system counter, the same for all harts.
    pub time_base_frequency: u64,
    /// Declared number of nodes in the table.
    pub nodes_len: u32,
    /// Table-relative byte offset of the first node.
    pub nodes_offset: u32,
    /// The complete table span (node offsets are relative to its start).
    pub bytes: Vec<u8>,
}

/// View of the hart-capability description table.
pub struct RhctV {
    pub header: crate::sdt::Header,
    pub flags: u32,
    pub time_base_frequency: u64,
    pub nodes_len: u32,
    pub nodes_offset: u32,
    pub bytes: Seq<u8>,
}

impl View for Rhct {
    type V = RhctV;

    open spec fn view(&self) -> RhctV {
        RhctV {
            header: self.header,
            flags: self.flags,
            time_base_frequency: self.time_base_frequency,
            nodes_len: self.nodes_len,
            nodes_offset: self.nodes_offset,
            bytes: self.bytes@,
        }
    }
}

impl Sdt for Rhct {
    open spec fn signature_spec() -> Seq<u8> {
        seq![0x52u8, 0x48u8, 0x43u8, 0x54u8]
    }

    open spec fn min_len_spec() -> int {
        56
    }

    open spec fn parse_spec(b: Seq<u8>) -> RhctV {
        RhctV {
            header: spec_header_of(b),
            flags: le32_at(b, 36),
            time_base_frequency: le64_at(b, 40),
            nodes_len: le32_at(b, 48),
            nodes_offset: le32_at(b, 52),
            bytes: b,
        }
    }

    fn signature() -> (s: Signature) {
        let s = Signature([0x52, 0x48, 0x43, 0x54]);
        proof {
            assert(s@ =~= Self::signature_spec());
        }
        s
    }

    fn min_len() -> (n: usize) {
        56
    }

    fn parse(b: &[u8]) -> (t: Self) {
        let header = parse_header(b);
        let flags = read_le32(b, 36);
        let time_base_frequency = read_le64(b, 40);
        let nodes_len = read_le32(b, 48);
        let nodes_offset = read_le32(b, 52);
        let bytes = slice_to_vec(b);
        Rhct { header, flags, time_base_frequency, nodes_len, nodes_offset, bytes }
    }
}

impl Rhct {
    /// Returns the table-level flags.
    pub fn flags(&self) -> (r: RhctFlags)
        ensures
            r.0 == self.flags,
    {
        RhctFlags(self.flags)
    }

    /// Returns the frequency of the system counter.
    pub fn time_base_frequency(&self) -> (r: u64)
        ensures
            r == self.time_base_frequency,
    {
        self.time_base_frequency
    }

    /// Returns the declared number of nodes in the table.
    pub fn len(&self) -> (r: usize)
        ensures
            r == self.nodes_len as usize,
    {
        self.nodes_len as usize
    }

    /// True when the table declares no nodes.
    pub fn is_empty(&self) -> (r: bool)
        ensures
            r == (self.nodes_len == 0),
    {
        self.nodes_len == 0
    }

    /// Looks up the node at a table-relative byte offset and decodes it.
    ///
    /// Returns nothing when the offset points before the node region or
    /// the node's header or declared span reaches past the table span.
    pub fn get_node(&self, offset: usize) -> (r: Option<Entry>)
        ensures
            ({
                let m = spec_node_at(self.bytes@, offset as int);
                &&& (r is Some <==> m is Some)
                &&& r is Some ==> r->Some_0@ == m->Some_0
            }),
    {
        let b = self.bytes.as_slice();
        let n = b.len();
        if offset < 56 || n < offset || n - offset < 6 {
            return None;
        }
        let ln = read_le16(b, offset + 2) as usize;
        if ln < 6 || ln > n - offset {
            return None;
        }
        Some(parse_node(slice_subrange(b, offset, offset + ln)))
    }

    /// Walks the node region and decodes every per-hart node, in storage
    /// order, starting at the table's declared first-node offset and
    /// visiting at most the declared number of nodes.
    pub fn nodes(&self) -> (r: Vec<HartInfo>)
        ensures
            r@.map_values(|h: HartInfo| h@) == spec_nodes_from(
                self.bytes@,
                self.nodes_offset as int,
                self.nodes_len as int,
            ),
    {
        let b = self.bytes.as_slice();
        let n = b.len();
        let mut out: Vec<HartInfo> = Vec::new();
        let mut off: usize = self.nodes_offset as usize;
        let mut remaining: u32 = self.nodes_len;
        while remaining > 0
            invariant
                n == self.bytes@.len(),
                b@ == self.bytes@,
                off <= usize::MAX,
                spec_nodes_from(self.bytes@, self.nodes_offset as int, self.nodes_len as int)
                    == out@.map_values(|h: HartInfo| h@) + spec_nodes_from(
                    self.bytes@,
                    off as int,
                    remaining as int,
                ),
            decreases remaining,
        {
            let ghost prev = out@.map_values(|h: HartInfo| h@);
            if off < 56 || n < off || n - off < 6 {
                proof {
                    assert(spec_nodes_from(self.bytes@, off as int, remaining as int)
                        =~= Seq::<HartInfoV>::empty());
                    assert(out@.map_values(|h: HartInfo| h@) =~= spec_nodes_from(
                        self.bytes@,
                        self.nodes_offset as int,
                        self.nodes_len as int,
                    ));
                }
                return out;
            }
            let ln = read_le16(b, off + 2) as usize;
            if ln < 6 || ln > n - off {
                proof {
                    assert(spec_nodes_from(self.bytes@, off as int, remaining as int)
                        =~= Seq::<HartInfoV>::empty());
                    assert(out@.map_values(|h: HartInfo| h@) =~= spec_nodes_from(
                        self.bytes@,
                        self.nodes_offset as int,
                        self.nodes_len as int,
                    ));
                }
                return out;
            }
            let t = read_le16(b, off);
            if t == 65535 && ln >= 12 {
                let hi = parse_hart_info(slice_subrange(b, off, off + ln));
                out.push(hi);
                proof {
                    let hv = spec_hart_info_of(self.bytes@.subrange(off as int, off + ln));
                    assert(out@.map_values(|h: HartInfo| h@) =~= prev.push(hv));
                    assert(prev.push(hv) =~= prev + seq![hv]);
                }
            }
            off = off + ln;
            remaining = remaining - 1;
        }
        proof {
            assert(spec_nodes_from(self.bytes@, off as int, remaining as int) =~= Seq::<
                HartInfoV,
            >::empty());
            assert(out@.map_values(|h: HartInfo| h@) =~= spec_nodes_from(
                self.bytes@,
                self.nodes_offset as int,
                self.nodes_len as int,
            ));
        }
        out
    }
}


/// The byte ranges `(start, end)` of the nodes the walker visits from the
/// table-relative offset `off`, visiting at most `count` nodes.
pub open spec fn spec_node_spans(b: Seq<u8>, off: int, count: int) -> Seq<(int, int)>
    decreases count,
{
    if count <= 0 {
        Seq::empty()
    } else if !(56 <= off && off + 6 <= b.len()) {
        Seq::empty()
    } else {
        let ln = le16_at(b, off + 2) as int;
        if ln < 6 || off + ln > b.len() {
            Seq::empty()
        } else {
            seq![(off, off + ln)] + spec_node_spans(b, off + ln, count - 1)
        }
    }
}

/// Node walker termination: the walk visits at most the declared number
/// of nodes, and emits at most one per-hart node per visited node.
pub proof fn lemma_node_walk_len(b: Seq<u8>, off: int, count: int)
    ensures
        spec_node_spans(b, off, count).len() <= count || count < 0,
        spec_nodes_from(b, off, count).len() <= spec_node_spans(b, off, count).len(),
    decreases count,
{
    if count > 0 && 56 <= off && off + 6 <= b.len() {
        let ln = le16_at(b, off + 2) as int;
        if !(ln < 6 || off + ln > b.len()) {
            lemma_node_walk_len(b, off + ln, count - 1);
        }
    }
}

/// Node walker containment: every node the walk visits, and hence every
/// per-hart node it emits, starts at or after the node region and lies
/// completely inside the table span.
pub proof fn lemma_node_walk_bounded(b: Seq<u8>, off: int, count: int, k: int)
    requires
        0 <= k < spec_node_spans(b, off, count).len(),
    ensures
        56 <= spec_node_spans(b, off, count)[k].0,
        spec_node_spans(b, off, count)[k].0 + 6 <= spec_node_spans(b, off, count)[k].1,
        spec_node_spans(b, off, count)[k].1 <= b.len(),
    decreases count,
{
    let ln = le16_at(b, off + 2) as int;
    if k > 0 {
        lemma_node_walk_bounded(b, off + ln, count - 1, k - 1);
    }
}

} // verus!

