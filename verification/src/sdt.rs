//! Core table-addressing machinery: signatures, the common table header,
//! the memory-mapping bridge interface, mapped byte spans, and the root
//! table locator.

use crate::bytes::{le32_at, le64_at, read_le32, read_le64};
use crate::Rsdp;
use vstd::prelude::*;
use vstd::slice::{slice_subrange, slice_to_vec};
use vstd::std_specs::vec::spec_vec_len;

verus! {

/// Size in bytes of the common table header that prefixes every table.
pub const HEADER_SIZE: usize = 36;

/// A table's 4-byte signature, compared exactly.
#[derive(Clone, Copy, Debug)]
pub struct Signature(pub [u8; 4]);

impl View for Signature {
    type V = Seq<u8>;

    open spec fn view(&self) -> Seq<u8> {
        self.0@
    }
}

impl PartialEq for Signature {
    fn eq(&self, o: &Signature) -> (r: bool) {
        let r = self.0[0] == o.0[0] && self.0[1] == o.0[1] && self.0[2] == o.0[2] && self.0[3]
            == o.0[3];
        proof {
            if r {
                assert(self.0@ =~= o.0@);
            }
        }
        r
    }
}

impl Eq for Signature {

}

impl vstd::std_specs::cmp::PartialEqSpecImpl for Signature {
    open spec fn obeys_eq_spec() -> bool {
        true
    }

    open spec fn eq_spec(&self, o: &Signature) -> bool {
        self.0@ == o.0@
    }
}

/// The signature stored in the first four bytes of a table span.
pub open spec fn sig_of(b: Seq<u8>) -> Seq<u8> {
    b.subrange(0, 4)
}

/// The declared total length of the table whose span starts at `b`.
pub open spec fn table_len_of(b: Seq<u8>) -> u32 {
    le32_at(b, 4)
}

/// Common header found at the start of every system description table.
#[derive(Clone, Copy, Debug)]
pub struct Header {
    pub signature: Signature,
    pub length: u32,
    pub revision: u8,
    pub checksum: u8,
    pub oem_id: [u8; 6],
    pub oem_table_id: u64,
    pub oem_revision: u32,
    pub creator_id: u32,
    pub creator_revision: u32,
}

/// The header encoded little-endian in the first 36 bytes of `b`.
pub open spec fn spec_header_of(b: Seq<u8>) -> Header
    recommends
        b.len() >= 36,
{
    Header {
        signature: Signature([b[0], b[1], b[2], b[3]]),
        length: le32_at(b, 4),
        revision: b[8],
        checksum: b[9],
        oem_id: [b[10], b[11], b[12], b[13], b[14], b[15]],
        oem_table_id: le64_at(b, 16),
        oem_revision: le32_at(b, 24),
        creator_id: le32_at(b, 28),
        creator_revision: le32_at(b, 32),
    }
}

/// Decodes the common header from the first 36 bytes of `b`.
pub fn parse_header(b: &[u8]) -> (h: Header)
    requires
        b@.len() >= 36,
    ensures
        h == spec_header_of(b@),
        h.signature@ == sig_of(b@),
        h.length == table_len_of(b@),
{
    let h = Header {
        signature: Signature([b[0], b[1], b[2], b[3]]),
        length: read_le32(b, 4),
        revision: b[8],
        checksum: b[9],
        oem_id: [b[10], b[11], b[12], b[13], b[14], b[15]],
        oem_table_id: read_le64(b, 16),
        oem_revision: read_le32(b, 24),
        creator_id: read_le32(b, 28),
        creator_revision: read_le32(b, 32),
    };
    proof {
        assert(h.signature@ =~= sig_of(b@));
    }
    h
}

/// Physical-to-local memory mapping collaborator.
///
/// An implementation stands for a view of physical memory: `mem()` is the
/// byte content of that memory, and `map` hands out an owned copy of a
/// requested range, or nothing when the range lies outside the memory.
pub trait Bridge: Sized {
    /// The byte content of the physical memory this bridge can map.
    spec fn mem(&self) -> Seq<u8>;

    /// Establishes a mapping of `size` bytes starting at `phys`.
    fn map(&self, phys: usize, size: usize) -> (r: Option<Vec<u8>>)
        ensures
            r is Some <==> phys + size <= self.mem().len(),
            r is Some ==> r->Some_0@ == self.mem().subrange(phys as int, phys + size),
    ;

    /// Grows (or shrinks) a mapping to `new_size` bytes from the same
    /// physical base.
    fn remap(&self, phys: usize, new_size: usize) -> (r: Option<Vec<u8>>)
        ensures
            r is Some <==> phys + new_size <= self.mem().len(),
            r is Some ==> r->Some_0@ == self.mem().subrange(phys as int, phys + new_size),
    ;

    /// Releases a mapping previously returned by `map`/`remap`.
    fn unmap(&self, phys: usize);

    /// Physical memory is addressable: every byte of it has an address
    /// that fits the machine's address width.
    proof fn mem_bounded(&self)
        ensures
            self.mem().len() <= usize::MAX,
    ;
}

/// A bridge backed by an in-memory byte image of physical memory.
#[derive(Debug)]
pub struct SliceBridge {
    bytes: Vec<u8>,
}

impl SliceBridge {
    /// Wraps a byte image so that physical address `p` names `bytes[p]`.
    pub fn new(bytes: Vec<u8>) -> (r: SliceBridge)
        ensures
            r.mem() == bytes@,
    {
        SliceBridge { bytes }
    }
}

impl Bridge for SliceBridge {
    closed spec fn mem(&self) -> Seq<u8> {
        self.bytes@
    }

    fn map(&self, phys: usize, size: usize) -> (r: Option<Vec<u8>>) {
        if size <= self.bytes.len() && phys <= self.bytes.len() - size {
            Some(slice_to_vec(slice_subrange(self.bytes.as_slice(), phys, phys + size)))
        } else {
            None
        }
    }

    fn remap(&self, phys: usize, new_size: usize) -> (r: Option<Vec<u8>>) {
        self.map(phys, new_size)
    }

    fn unmap(&self, _phys: usize) {
    }

    proof fn mem_bounded(&self) {
        broadcast use vstd::std_specs::vec::axiom_spec_len;

        assert(spec_vec_len(&self.bytes) == self.bytes@.len());
    }
}

/// An owned window onto a mapped region of firmware memory.
///
/// A well-formed handle's bytes are exactly the bytes of the bridge's
/// memory at the span `[base, base + span.len())`, and the span always
/// covers at least the common header.
pub struct Mapped<'a, B: Bridge> {
    bytes: Vec<u8>,
    phys: usize,
    bridge: &'a B,
}

impl<'a, B: Bridge> Mapped<'a, B> {
    /// The bytes currently mapped.
    pub closed spec fn span(self) -> Seq<u8> {
        self.bytes@
    }

    /// The physical base address of the mapping.
    pub closed spec fn base(self) -> usize {
        self.phys
    }

    /// The byte content of the memory behind the handle's bridge.
    pub closed spec fn mem(self) -> Seq<u8> {
        self.bridge.mem()
    }

    /// The handle covers at least a header and mirrors the bridge's memory.
    pub open spec fn wf(self) -> bool {
        &&& self.span().len() >= 36
        &&& self.base() + self.span().len() <= self.mem().len()
        &&& self.span() == self.mem().subrange(
            self.base() as int,
            self.base() + self.span().len(),
        )
    }

    /// Maps the header-sized span that starts at `phys`.
    pub fn new(phys: usize, bridge: &'a B) -> (r: Option<Mapped<'a, B>>)
        ensures
            r is Some <==> phys + 36 <= bridge.mem().len(),
            r is Some ==> {
                let m = r->Some_0;
                &&& m.wf()
                &&& m.base() == phys
                &&& m.mem() == bridge.mem()
                &&& m.span() == bridge.mem().subrange(phys as int, phys + 36)
            },
    {
        match bridge.map(phys, HEADER_SIZE) {
            Some(bytes) => Some(Mapped { bytes, phys, bridge }),
            None => None,
        }
    }

    /// Decodes the common header at the start of the span.
    pub fn header(&self) -> (h: Header)
        requires
            self.wf(),
        ensures
            h == spec_header_of(self.span()),
            h.signature@ == sig_of(self.span()),
            h.length == table_len_of(self.span()),
    {
        parse_header(self.bytes.as_slice())
    }

    /// Borrows the mapped bytes.
    pub fn as_bytes(&self) -> (r: &[u8])
        ensures
            r@ == self.span(),
    {
        self.bytes.as_slice()
    }

    /// Gives up the handle, returning the mapped bytes.
    pub fn into_inner(self) -> (r: Vec<u8>)
        ensures
            r@ == self.span(),
    {
        self.bytes
    }

    /// Produces an independent handle on the same table, widened to the
    /// table's full declared length.
    ///
    /// The widened span begins with the same 36 header bytes as this one.
    pub fn clone_header(&self) -> (r: Option<Mapped<'a, B>>)
        requires
            self.wf(),
        ensures
            ({
                let ln = table_len_of(self.span()) as int;
                &&& (r is Some <==> ln >= 36 && self.base() + ln <= self.mem().len())
                &&& r is Some ==> {
                    let m = r->Some_0;
                    &&& m.wf()
                    &&& m.base() == self.base()
                    &&& m.mem() == self.mem()
                    &&& m.span() == self.mem().subrange(self.base() as int, self.base() + ln)
                    &&& m.span().subrange(0, 36) == self.span().subrange(0, 36)
                }
            }),
    {
        let ln = read_le32(self.bytes.as_slice(), 4);
        if ln < HEADER_SIZE as u32 {
            return None;
        }
        match self.bridge.remap(self.phys, ln as usize) {
            Some(bytes) => {
                let m = Mapped { bytes, phys: self.phys, bridge: self.bridge };
                proof {
                    assert(m.span().subrange(0, 36) =~= self.span().subrange(0, 36));
                }
                Some(m)
            },
            None => None,
        }
    }

    /// Widens the span to the table's full declared length and decodes it
    /// as the concrete table type `T`.
    ///
    /// The span's signature must already match `T`'s; the decode is
    /// refused (returns nothing) when the declared length is shorter than
    /// `T`'s least decodable length or the full span lies outside memory.
    pub fn map_full<T: Sdt>(self) -> (r: Option<T>)
        requires
            self.wf(),
            sig_of(self.span()) == T::signature_spec(),
        ensures
            ({
                let ln = table_len_of(self.span()) as int;
                let full = self.mem().subrange(self.base() as int, self.base() + ln);
                &&& (r is Some <==> ln >= T::min_len_spec() && self.base() + ln
                    <= self.mem().len())
                &&& r is Some ==> r->Some_0@ == T::parse_spec(full)
            }),
    {
        let ln = read_le32(self.bytes.as_slice(), 4);
        let min = T::min_len();
        if (ln as usize) < min {
            return None;
        }
        match self.bridge.remap(self.phys, ln as usize) {
            Some(full) => Some(T::parse(full.as_slice())),
            None => None,
        }
    }
}

/// The contract every concrete table type implements: a fixed signature
/// and a decoder from a full table span to a typed view.
pub trait Sdt: View + Sized {
    /// The table's 4-byte signature.
    spec fn signature_spec() -> Seq<u8>;

    /// Least span length (in bytes) the decoder accepts; at least the
    /// header size.
    spec fn min_len_spec() -> int;

    /// The decoded view of a table span.
    spec fn parse_spec(b: Seq<u8>) -> Self::V;

    /// Returns the table's signature.
    fn signature() -> (s: Signature)
        ensures
            s@ == Self::signature_spec(),
    ;

    /// Returns the least span length the decoder accepts.
    fn min_len() -> (n: usize)
        ensures
            n as int == Self::min_len_spec(),
            n >= 36,
    ;

    /// Decodes a table from a full table span.
    fn parse(b: &[u8]) -> (t: Self)
        requires
            b@.len() >= Self::min_len_spec(),
            b@.len() >= 36,
        ensures
            t@ == Self::parse_spec(b@),
    ;
}

/// A complete table lies inside `mem` at base `p`: its header is in
/// bounds, and its declared length covers at least the header and stays
/// inside memory.
pub open spec fn full_ok(mem: Seq<u8>, p: int) -> bool {
    &&& 0 <= p
    &&& p + 36 <= mem.len()
    &&& le32_at(mem, p + 4) >= 36
    &&& p + le32_at(mem, p + 4) <= mem.len()
}

/// The complete span of the table at base `p`: its declared length in
/// bytes, starting at the header.
pub open spec fn full_span(mem: Seq<u8>, p: int) -> Seq<u8> {
    mem.subrange(p, p + le32_at(mem, p + 4))
}

/// The physical base address of the root table named by a root pointer.
pub open spec fn spec_root_base(rsdp: Rsdp) -> int {
    if rsdp.revision < 2 {
        rsdp.rsdt_addr as int
    } else {
        rsdp.xsdt_addr as int
    }
}

/// The width in bytes of one root pointer array element.
pub open spec fn spec_root_elem(rsdp: Rsdp) -> int {
    if rsdp.revision < 2 {
        4
    } else {
        8
    }
}

/// The root pointer array encoded in the trailing bytes of the root table
/// span `b`: one little-endian address of width `elem` per element, packed
/// immediately after the header.
pub open spec fn root_ptrs_of(b: Seq<u8>, elem: int) -> Seq<u64>
    recommends
        b.len() >= 36,
        elem == 4 || elem == 8,
{
    Seq::new(
        (((b.len() - 36) as int) / elem) as nat,
        |i: int|
            if elem == 4 {
                le32_at(b, 36 + 4 * i) as u64
            } else {
                le64_at(b, 36 + 8 * i)
            },
    )
}

/// Root table locator: reads the root pointer structure, decodes the root
/// pointer array, and exposes lookup of tables by signature.
pub struct RootTable<B: Bridge> {
    /// Revision reported by the root pointer structure.
    pub acpi_revision: u8,
    ptrs: Vec<u64>,
    bridge: B,
}

impl<B: Bridge> RootTable<B> {
    /// Revision reported by the root pointer structure.
    pub closed spec fn revision(self) -> u8 {
        self.acpi_revision
    }

    /// The physical addresses listed in the root pointer array, in array
    /// order.
    pub closed spec fn ptrs(self) -> Seq<u64> {
        self.ptrs@
    }

    /// The byte content of the memory behind the locator's bridge.
    pub closed spec fn mem(self) -> Seq<u8> {
        self.bridge.mem()
    }

    /// Locates the root table named by `rsdp` and decodes its pointer
    /// array: 32-bit elements for a legacy root pointer (revision below
    /// 2), 64-bit elements otherwise.
    ///
    /// Returns nothing when the root table itself does not lie completely
    /// inside the bridge's memory.
    pub fn new(rsdp: &Rsdp, bridge: B) -> (r: Option<RootTable<B>>)
        ensures
            ({
                let base = spec_root_base(*rsdp);
                let elem = spec_root_elem(*rsdp);
                &&& (r is Some <==> base + 36 <= bridge.mem().len() && full_ok(
                    bridge.mem(),
                    base,
                ))
                &&& r is Some ==> {
                    let rt = r->Some_0;
                    &&& rt.revision() == rsdp.revision
                    &&& rt.mem() == bridge.mem()
                    &&& rt.ptrs() == root_ptrs_of(full_span(bridge.mem(), base), elem)
                }
            }),
    {
        proof {
            bridge.mem_bounded();
        }
        let acpi_revision = rsdp.revision;
        let base_addr: u64 = if acpi_revision < 2 {
            rsdp.rsdt_addr as u64
        } else {
            rsdp.xsdt_addr
        };
        let elem: usize = if acpi_revision < 2 {
            4
        } else {
            8
        };
        if base_addr > (usize::MAX as u64) {
            return None;
        }
        let base = base_addr as usize;
        let header = match Mapped::new(base, &bridge) {
            Some(h) => h,
            None => {
                return None;
            },
        };
        let full = match header.clone_header() {
            Some(m) => m,
            None => {
                return None;
            },
        };
        let b = full.into_inner();
        let ghost bs = b@;
        let ln = b.len();
        let count = (ln - 36) / elem;
        proof {
            assert((elem as int) * (((ln - 36) as int) / (elem as int)) <= ln - 36) by (nonlinear_arith)
                requires
                    (elem == 4 || elem == 8) && ln >= 36,
            ;
        }
        let mut ptrs: Vec<u64> = Vec::new();
        let mut i: usize = 0;
        while i < count
            invariant
                elem == 4 || elem == 8,
                36 <= ln <= usize::MAX,
                ln == bs.len(),
                b@ == bs,
                count == ((ln - 36) as int) / (elem as int),
                elem * count <= ln - 36,
                i <= count,
                ptrs@ == root_ptrs_of(bs, elem as int).take(i as int),
            decreases count - i,
        {
            proof {
                assert((elem as int) * (i as int) + elem <= (elem as int) * (count as int)) by (nonlinear_arith)
                    requires
                        i < count && (elem == 4 || elem == 8),
                ;
            }
            let off = 36 + elem * i;
            let p: u64 = if elem == 4 {
                read_le32(b.as_slice(), off) as u64
            } else {
                read_le64(b.as_slice(), off)
            };
            ptrs.push(p);
            proof {
                assert(ptrs@ =~= root_ptrs_of(bs, elem as int).take(i + 1));
            }
            i = i + 1;
        }
        proof {
            assert(ptrs@ =~= root_ptrs_of(bs, elem as int));
        }
        Some(RootTable { acpi_revision, ptrs, bridge })
    }

    /// Maps every table named by the root pointer array, in array order,
    /// each widened to its full declared length.
    ///
    /// A pointer whose table does not lie completely inside memory
    /// contributes no handle.
    pub fn all_tables<'s>(&'s self) -> (r: Vec<Mapped<'s, B>>)
        ensures
            r@.map_values(|m: Mapped<'s, B>| m.span()) == tables_from(self.mem(), self.ptrs()),
            forall|j: int|
                0 <= j < r@.len() ==> (#[trigger] r@[j]).wf() && r@[j].mem() == self.mem()
                    && r@[j].span().len() == table_len_of(r@[j].span()),
    {
        proof {
            self.bridge.mem_bounded();
        }
        let mut out: Vec<Mapped<'s, B>> = Vec::new();
        let n = self.ptrs.len();
        let mut i: usize = 0;
        while i < n
            invariant
                n == self.ptrs().len(),
                i <= n,
                self.mem() == self.bridge.mem(),
                self.mem().len() <= usize::MAX,
                out@.map_values(|m: Mapped<'s, B>| m.span()) == tables_from(
                    self.mem(),
                    self.ptrs().take(i as int),
                ),
                forall|j: int|
                    0 <= j < out@.len() ==> (#[trigger] out@[j]).wf() && out@[j].mem()
                        == self.mem() && out@[j].span().len() == table_len_of(out@[j].span()),
            decreases n - i,
        {
            let ghost prev = out@.map_values(|m: Mapped<'s, B>| m.span());
            let ghost p_int = self.ptrs()[i as int] as int;
            let p = self.ptrs[i];
            if p <= (usize::MAX as u64) {
                match Mapped::new(p as usize, &self.bridge) {
                    Some(h) => {
                        match h.clone_header() {
                            Some(m) => {
                                out.push(m);
                            },
                            None => {},
                        }
                    },
                    None => {},
                }
            }
            proof {
                lemma_tables_from_push(
                    self.mem(),
                    self.ptrs().take(i as int),
                    self.ptrs()[i as int],
                );
                assert(self.ptrs().take(i + 1) =~= self.ptrs().take(i as int).push(
                    self.ptrs()[i as int],
                ));
                if full_ok(self.mem(), p_int) {
                    assert(out@.map_values(|m: Mapped<'s, B>| m.span()) =~= prev.push(
                        full_span(self.mem(), p_int),
                    ));
                    assert(prev.push(full_span(self.mem(), p_int)) =~= prev + seq![
                        full_span(self.mem(), p_int),
                    ]);
                } else {
                    assert(tables_from(self.mem(), self.ptrs().take(i + 1)) =~= prev);
                }
            }
            i = i + 1;
        }
        proof {
            assert(self.ptrs().take(n as int) =~= self.ptrs());
        }
        out
    }

    /// Returns the `index`-th table (0-based, in root array order) whose
    /// signature equals `signature`, widened to its full length, or
    /// nothing when fewer than `index + 1` such tables exist.
    pub fn get_table_by_signature<'s>(&'s self, signature: Signature, index: usize) -> (r: Option<
        Mapped<'s, B>,
    >)
        ensures
            ({
                let m = nth_match(
                    tables_from(self.mem(), self.ptrs()),
                    signature@,
                    index as int,
                );
                &&& (r is Some <==> m is Some)
                &&& r is Some ==> {
                    let t = r->Some_0;
                    &&& t.wf()
                    &&& t.mem() == self.mem()
                    &&& t.span() == m->Some_0
                    &&& t.span().len() == table_len_of(t.span())
                }
            }),
    {
        proof {
            self.bridge.mem_bounded();
        }
        let ghost all = tables_from(self.mem(), self.ptrs());
        proof {
            assert(self.ptrs().skip(0) =~= self.ptrs());
        }
        let n = self.ptrs.len();
        let mut i: usize = 0;
        let mut remaining = index;
        while i < n
            invariant
                n == self.ptrs().len(),
                i <= n,
                self.mem() == self.bridge.mem(),
                self.mem().len() <= usize::MAX,
                all == tables_from(self.mem(), self.ptrs()),
                remaining <= index,
                nth_match(all, signature@, index as int) == nth_match(
                    tables_from(self.mem(), self.ptrs().skip(i as int)),
                    signature@,
                    remaining as int,
                ),
            decreases n - i,
        {
            let ghost suffix = tables_from(self.mem(), self.ptrs().skip(i as int));
            let ghost p_int = self.ptrs()[i as int] as int;
            proof {
                assert(self.ptrs().skip(i as int).drop_first() =~= self.ptrs().skip(i + 1));
            }
            let p = self.ptrs[i];
            if p <= (usize::MAX as u64) {
                match Mapped::new(p as usize, &self.bridge) {
                    Some(h) => {
                        match h.clone_header() {
                            Some(m) => {
                                proof {
                                    assert(suffix[0] == m.span());
                                    assert(suffix.drop_first() =~= tables_from(
                                        self.mem(),
                                        self.ptrs().skip(i + 1),
                                    ));
                                }
                                let hd = m.header();
                                if hd.signature == signature {
                                    if remaining == 0 {
                                        return Some(m);
                                    }
                                    remaining = remaining - 1;
                                }
                            },
                            None => {},
                        }
                    },
                    None => {},
                }
            }
            i = i + 1;
        }
        proof {
            assert(self.ptrs().skip(n as int) =~= Seq::<u64>::empty());
        }
        None
    }

    /// Returns the `index`-th table whose signature equals `T`'s, decoded
    /// as `T`, or nothing when no such table exists or its declared length
    /// is shorter than `T`'s least decodable length.
    pub fn get_table<T: Sdt>(&self, index: usize) -> (r: Option<T>)
        ensures
            ({
                let m = nth_match(
                    tables_from(self.mem(), self.ptrs()),
                    T::signature_spec(),
                    index as int,
                );
                &&& (r is Some <==> m is Some && m->Some_0.len() >= T::min_len_spec())
                &&& r is Some ==> r->Some_0@ == T::parse_spec(m->Some_0)
            }),
    {
        let sig = T::signature();
        match self.get_table_by_signature(sig, index) {
            None => None,
            Some(m) => {
                let ghost gm = m;
                proof {
                    lemma_nth_match_sig(
                        tables_from(self.mem(), self.ptrs()),
                        T::signature_spec(),
                        index as int,
                    );
                }
                let r = m.map_full::<T>();
                proof {
                    assert(gm.mem().subrange(
                        gm.base() as int,
                        gm.base() + table_len_of(gm.span()),
                    ) =~= gm.span());
                }
                r
            },
        }
    }
}

/// The table spans reachable from a pointer array: one complete span per
/// pointer that names a complete table, in array order; a pointer to an
/// incomplete table contributes nothing.
pub open spec fn tables_from(mem: Seq<u8>, ptrs: Seq<u64>) -> Seq<Seq<u8>>
    decreases ptrs.len(),
{
    if ptrs.len() == 0 {
        Seq::empty()
    } else {
        let p = ptrs[0] as int;
        let rest = tables_from(mem, ptrs.drop_first());
        if full_ok(mem, p) {
            seq![full_span(mem, p)] + rest
        } else {
            rest
        }
    }
}

/// Extending the pointer array by one pointer appends that pointer's span
/// (when its table is complete) to the reachable spans.
pub proof fn lemma_tables_from_push(mem: Seq<u8>, ptrs: Seq<u64>, p: u64)
    ensures
        tables_from(mem, ptrs.push(p)) == tables_from(mem, ptrs) + (if full_ok(mem, p as int) {
            seq![full_span(mem, p as int)]
        } else {
            Seq::<Seq<u8>>::empty()
        }),
    decreases ptrs.len(),
{
    let tail = if full_ok(mem, p as int) {
        seq![full_span(mem, p as int)]
    } else {
        Seq::<Seq<u8>>::empty()
    };
    if ptrs.len() == 0 {
        let ps = ptrs.push(p);
        assert(ps[0] == p);
        assert(ps.drop_first() =~= Seq::<u64>::empty());
        assert(tables_from(mem, ps.drop_first()) == Seq::<Seq<u8>>::empty());
        assert(tables_from(mem, ps) == tail);
        assert(tables_from(mem, ps) =~= tables_from(mem, ptrs) + tail);
    } else {
        let ps = ptrs.push(p);
        assert(ps[0] == ptrs[0]);
        assert(ps.drop_first() =~= ptrs.drop_first().push(p));
        lemma_tables_from_push(mem, ptrs.drop_first(), p);
        assert(tables_from(mem, ps.drop_first()) == tables_from(mem, ptrs.drop_first()) + tail);
        if full_ok(mem, ptrs[0] as int) {
            assert(tables_from(mem, ps) == seq![full_span(mem, ptrs[0] as int)] + (tables_from(
                mem,
                ptrs.drop_first(),
            ) + tail));
            assert(tables_from(mem, ps) =~= tables_from(mem, ptrs) + tail);
        } else {
            assert(tables_from(mem, ps) =~= tables_from(mem, ptrs) + tail);
        }
    }
}

/// The `n`-th span (0-based) among `ts` whose signature equals `s`, in
/// order, or nothing when fewer than `n + 1` such spans exist.
pub open spec fn nth_match(ts: Seq<Seq<u8>>, s: Seq<u8>, n: int) -> Option<Seq<u8>>
    decreases ts.len(),
{
    if ts.len() == 0 {
        None
    } else if sig_of(ts[0]) == s {
        if n == 0 {
            Some(ts[0])
        } else {
            nth_match(ts.drop_first(), s, n - 1)
        }
    } else {
        nth_match(ts.drop_first(), s, n)
    }
}

/// A span found by signature carries that signature.
pub proof fn lemma_nth_match_sig(ts: Seq<Seq<u8>>, s: Seq<u8>, n: int)
    ensures
        nth_match(ts, s, n) is Some ==> sig_of(nth_match(ts, s, n)->Some_0) == s,
    decreases ts.len(),
{
    if ts.len() != 0 {
        lemma_nth_match_sig(ts.drop_first(), s, n - 1);
        lemma_nth_match_sig(ts.drop_first(), s, n);
    }
}


/// Law: a legacy root table's pointer array has `(length - 36) / 4`
/// elements, one per 4 bytes after the header, and its `i`-th element is
/// the 32-bit little-endian address stored at byte `36 + 4i`.
pub proof fn lemma_root_ptrs_legacy(b: Seq<u8>)
    requires
        b.len() >= 36,
    ensures
        root_ptrs_of(b, 4).len() == ((b.len() - 36) as int) / 4,
        forall|i: int|
            0 <= i < root_ptrs_of(b, 4).len() ==> root_ptrs_of(b, 4)[i] == le32_at(
                b,
                36 + 4 * i,
            ) as u64,
{
}

/// Law: an extended root table's pointer array has `(length - 36) / 8`
/// elements, one per 8 bytes after the header, and its `i`-th element is
/// the 64-bit little-endian address stored at byte `36 + 8i`.
pub proof fn lemma_root_ptrs_extended(b: Seq<u8>)
    requires
        b.len() >= 36,
    ensures
        root_ptrs_of(b, 8).len() == ((b.len() - 36) as int) / 8,
        forall|i: int|
            0 <= i < root_ptrs_of(b, 8).len() ==> root_ptrs_of(b, 8)[i] == le64_at(b, 36 + 8 * i),
{
}

/// Law: when every pointer of the array names a complete table, the
/// reachable spans correspond to the pointers one-to-one and in array
/// order: the `i`-th span is the `i`-th pointer's complete table span.
pub proof fn lemma_tables_in_array_order(mem: Seq<u8>, ptrs: Seq<u64>)
    requires
        forall|i: int| 0 <= i < ptrs.len() ==> full_ok(mem, (#[trigger] ptrs[i]) as int),
    ensures
        tables_from(mem, ptrs).len() == ptrs.len(),
        forall|i: int|
            0 <= i < ptrs.len() ==> tables_from(mem, ptrs)[i] == full_span(
                mem,
                (#[trigger] ptrs[i]) as int,
            ),
    decreases ptrs.len(),
{
    if ptrs.len() > 0 {
        let rest = ptrs.drop_first();
        assert(forall|i: int|
            0 <= i < rest.len() ==> full_ok(mem, (#[trigger] rest[i]) as int)) by {
            assert(forall|i: int|
                0 <= i < rest.len() ==> rest[i] == ptrs[i + 1]);
        }
        lemma_tables_in_array_order(mem, rest);
        assert(full_ok(mem, ptrs[0] as int));
        assert forall|i: int| 0 <= i < ptrs.len() implies tables_from(mem, ptrs)[i] == full_span(
            mem,
            (#[trigger] ptrs[i]) as int,
        ) by {
            if i > 0 {
                assert(tables_from(mem, ptrs)[i] == tables_from(mem, rest)[i - 1]);
                assert(rest[i - 1] == ptrs[i]);
            }
        }
    }
}

/// The spans among `ts` that carry the signature `s`, in visiting order.
pub open spec fn matches_of(ts: Seq<Seq<u8>>, s: Seq<u8>) -> Seq<Seq<u8>>
    decreases ts.len(),
{
    if ts.len() == 0 {
        Seq::empty()
    } else if sig_of(ts[0]) == s {
        seq![ts[0]] + matches_of(ts.drop_first(), s)
    } else {
        matches_of(ts.drop_first(), s)
    }
}

/// Law: lookup by signature enumerates, in visiting order, exactly the
/// spans that carry the signature: the `n`-th lookup result is the `n`-th
/// element of the in-order subsequence of matching spans, and the lookup
/// finds nothing if and only if fewer than `n + 1` spans match.
pub proof fn lemma_nth_match_enumerates(ts: Seq<Seq<u8>>, s: Seq<u8>, n: int)
    requires
        0 <= n,
    ensures
        n < matches_of(ts, s).len() ==> nth_match(ts, s, n) == Some(matches_of(ts, s)[n]),
        n >= matches_of(ts, s).len() ==> nth_match(ts, s, n) is None,
    decreases ts.len(),
{
    if ts.len() != 0 {
        lemma_nth_match_enumerates(ts.drop_first(), s, n);
        if n > 0 {
            lemma_nth_match_enumerates(ts.drop_first(), s, n - 1);
        }
    }
}

/// Law: enumerating the tables twice over the same root structure yields
/// the same spans: the same signatures and the same lengths, in the same
/// order.
pub proof fn lemma_all_tables_idempotent(
    mem: Seq<u8>,
    ptrs: Seq<u64>,
    r1: Seq<Seq<u8>>,
    r2: Seq<Seq<u8>>,
)
    requires
        r1 == tables_from(mem, ptrs),
        r2 == tables_from(mem, ptrs),
    ensures
        r1.len() == r2.len(),
        forall|i: int|
            0 <= i < r1.len() ==> sig_of(#[trigger] r1[i]) == sig_of(r2[i]) && table_len_of(
                r1[i],
            ) == table_len_of(r2[i]),
{
}

} // verus!
