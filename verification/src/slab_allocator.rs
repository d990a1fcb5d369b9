use vstd::prelude::*;
use vstd::pervasive::VecAdditionalExecFns;

use crate::utils::{align_backward, block_addr_wf, is_pow2, Block4KPtr, PageSource};

verus! {

/// Mask with `cell_count` one-bits starting at bit `start`, truncated to
/// 64 bits: the bitmap footprint of a span of cells.
pub open spec fn span_mask(cell_count: u64, start: u64) -> u64 {
    (((1u64 << cell_count) - 1) as u64) << start
}

/// Alignment constraint, in cell units, derived from a byte alignment.
/// Cell `k` sits `64 * (k + 1)` bytes into its page, so an alignment of
/// `64 * 2^m` holds exactly when the low `m` bits of `k` are all ones.
pub open spec fn prop_align_of(alignment: u64) -> u64 {
    if alignment >= 64 {
        ((alignment >> 6) - 1) as u64
    } else {
        0
    }
}

/// Cell index `k` can start a span of `cell_count` cells in `map`: the span
/// stays inside the 63 usable cells, `k` satisfies the alignment mask, and
/// every cell of the span is free.
pub open spec fn valid_span_start(map: u64, cell_count: u64, alignment: u64, k: u64) -> bool {
    &&& k + cell_count <= 63
    &&& k & prop_align_of(alignment) == prop_align_of(alignment)
    &&& map & span_mask(cell_count, k) == 0
}

/// Bit 63 is the "no valid span" sentinel and never represents a cell.
pub open spec fn map_wf(bits: u64) -> bool {
    bits < 0x8000_0000_0000_0000
}

/// Occupation bitmap over the 63 cells of one slab page; bit `i` set means
/// cell `i` is currently allocated.
#[derive(Debug, Clone, Copy)]
pub struct OccupationMap {
    bits: u64,
}

impl View for OccupationMap {
    type V = u64;

    closed spec fn view(&self) -> u64 {
        self.bits
    }
}

impl OccupationMap {
    pub open spec fn wf(&self) -> bool {
        map_wf(self@)
    }

    pub fn new() -> (r: OccupationMap)
        ensures
            r@ == 0,
            r.wf(),
    {
        OccupationMap { bits: 0 }
    }

    pub fn from_bits(bits: u64) -> (r: OccupationMap)
        requires
            map_wf(bits),
        ensures
            r@ == bits,
            r.wf(),
    {
        OccupationMap { bits }
    }

    /// The current bit pattern.
    pub fn load(&self) -> (r: u64)
        ensures
            r == self@,
    {
        self.bits
    }

    /// Claims the lowest span of `cell_count` contiguous free cells whose
    /// starting index satisfies the alignment mask, and returns it; `None`
    /// (with the map unchanged) when no such span exists.
    pub fn try_find_span(&mut self, cell_count: usize, alignment: usize) -> (r: Option<usize>)
        requires
            old(self).wf(),
            cell_count <= 63,
            is_pow2(alignment as u64),
            alignment <= 4096,
        ensures
            final(self).wf(),
            match r {
                Some(k) => {
                    &&& k <= 63
                    &&& k + cell_count <= 63
                    &&& valid_span_start(old(self)@, cell_count as u64, alignment as u64, k as u64)
                    &&& forall|j: u64|
                        j < k as u64 ==> !(#[trigger] valid_span_start(
                            old(self)@,
                            cell_count as u64,
                            alignment as u64,
                            j,
                        ))
                    &&& final(self)@ == old(self)@ | span_mask(cell_count as u64, k as u64)
                    &&& final(self)@ & span_mask(cell_count as u64, k as u64) == span_mask(
                        cell_count as u64,
                        k as u64,
                    )
                },
                None => {
                    &&& final(self)@ == old(self)@
                    &&& forall|j: u64|
                        !(#[trigger] valid_span_start(
                            old(self)@,
                            cell_count as u64,
                            alignment as u64,
                            j,
                        ))
                },
            },
    {
        let map = self.bits;
        let cc = cell_count as u64;
        let al = alignment as u64;
        proof {
            assert(1u64 <= 1u64 << cc) by (bit_vector)
                requires
                    cc <= 63,
            ;
            assert(al >= 64 ==> 1u64 <= al >> 6) by (bit_vector)
                requires
                    al != 0 && al & ((al - 1) as u64) == 0,
            ;
        }
        let pa: u64 = if al >= 64 {
            (al >> 6) - 1
        } else {
            0
        };
        let span: u64 = (1u64 << cc) - 1;
        let mut k: u64 = 0;
        while k + cc <= 63
            invariant
                old(self).wf(),
                self@ == old(self)@,
                map == old(self)@,
                cc == cell_count as u64,
                cc <= 63,
                al == alignment as u64,
                pa == prop_align_of(al),
                span == ((1u64 << cc) - 1) as u64,
                k <= 64,
                forall|j: u64| j < k ==> !valid_span_start(map, cc, al, j),
            decreases 64 - k,
        {
            if (k & pa) == pa && (map & (span << k)) == 0 {
                proof {
                    assert(span_mask(cc, k) == span << k);
                    assert(map | (span << k) < 0x8000_0000_0000_0000) by (bit_vector)
                        requires
                            map < 0x8000_0000_0000_0000u64,
                            span == ((1u64 << cc) - 1) as u64,
                            cc <= 63,
                            k + cc <= 63,
                    ;
                    assert((map | (span << k)) & (span << k) == (span << k)) by (bit_vector);
                }
                self.bits = map | (span << k);
                return Some(k as usize);
            }
            proof {
                assert(!valid_span_start(map, cc, al, k));
            }
            k = k + 1;
        }
        proof {
            assert forall|j: u64| !valid_span_start(map, cc, al, j) by {
                if j >= k {
                    assert(j + cc > 63);
                }
            }
        }
        None
    }

    /// Clears the `span`-cell footprint starting at cell `start`.
    pub fn release_span(&mut self, span: usize, start: usize)
        requires
            old(self).wf(),
            span <= 63,
            start <= 63,
        ensures
            final(self).wf(),
            final(self)@ == old(self)@ & !span_mask(span as u64, start as u64),
            final(self)@ & span_mask(span as u64, start as u64) == 0,
    {
        let s = span as u64;
        let st = start as u64;
        let map = self.bits;
        proof {
            assert(1u64 <= 1u64 << s) by (bit_vector)
                requires
                    s <= 63,
            ;
        }
        let mask = ((1u64 << s) - 1) << st;
        proof {
            assert(mask == span_mask(s, st));
            assert(map & !mask < 0x8000_0000_0000_0000 && (map & !mask) & mask == 0) by (bit_vector)
                requires
                    map < 0x8000_0000_0000_0000u64,
            ;
        }
        self.bits = map & !mask;
    }
}

/// Law: claiming a span of free cells and then releasing the same span
/// restores the map exactly; iterated over any set of pairwise-disjoint
/// spans, the map returns to its starting value.
pub proof fn lemma_release_round_trip(map: u64, cell_count: u64, k: u64)
    by (bit_vector)
    requires
        map & span_mask(cell_count, k) == 0,
    ensures
        (map | span_mask(cell_count, k)) & !span_mask(cell_count, k) == map,
{
}

/// Law: the order of two releases does not matter; with the round-trip law
/// this extends the restoration to claims released in any order.
pub proof fn lemma_release_order_irrelevant(map: u64, cc1: u64, k1: u64, cc2: u64, k2: u64)
    by (bit_vector)
    ensures
        (map & !span_mask(cc1, k1)) & !span_mask(cc2, k2) == (map & !span_mask(cc2, k2))
            & !span_mask(cc1, k1),
{
}

/// Law: live claims in one page do not overlap: a span claimed while
/// another's bits stand in the map had to find its own bits zero, so the two
/// footprints are disjoint.
pub proof fn lemma_live_spans_disjoint(bits: u64, cc1: u64, k1: u64, cc2: u64, k2: u64)
    by (bit_vector)
    requires
        bits & span_mask(cc1, k1) == span_mask(cc1, k1),
        bits & span_mask(cc2, k2) == 0,
    ensures
        span_mask(cc1, k1) & span_mask(cc2, k2) == 0,
{
}

/// Law: an allocation followed by a release of the returned pointer restores
/// the page list. `alloc_step` is what `smalloc` ensures of a success; the
/// `after` shape is what `release_memory` ensures of the page it clears. With
/// pairwise-distinct page bases the release finds the claimed page, so the
/// list returns to its old value — except that a page the allocation appended
/// fresh stays behind, empty again.
pub proof fn lemma_alloc_release_round_trip(
    before: Seq<(u64, u64)>,
    mid: Seq<(u64, u64)>,
    after: Seq<(u64, u64)>,
    p: RawMemoryPtr,
    j: int,
)
    requires
        alloc_step(before, mid, p),
        forall|m: int, n: int| #![trigger mid[m].0, mid[n].0]
            0 <= m < n < mid.len() ==> mid[m].0 != mid[n].0,
        0 <= j < mid.len(),
        mid[j].0 == spec_page_base(p.addr_spec()),
        after == mid.update(
            j,
            (mid[j].0, mid[j].1 & !span_mask(p.span_spec(), spec_cell_index(p.addr_spec()))),
        ),
    ensures
        after == before || after == before.push((spec_page_base(p.addr_spec()), 0u64)),
{
    let a = p.addr_spec();
    let mask = span_mask(p.span_spec(), spec_cell_index(a));
    if exists|jc: int|
        {
            &&& 0 <= jc < before.len()
            &&& (#[trigger] before[jc]).0 == spec_page_base(a)
            &&& before[jc].1 & mask == 0
            &&& mid == before.update(jc, (before[jc].0, before[jc].1 | mask))
        } {
        let jc = choose|jc: int|
            {
                &&& 0 <= jc < before.len()
                &&& (#[trigger] before[jc]).0 == spec_page_base(a)
                &&& before[jc].1 & mask == 0
                &&& mid == before.update(jc, (before[jc].0, before[jc].1 | mask))
            };
        assert(mid[jc].0 == spec_page_base(a));
        assert(j == jc);
        lemma_release_round_trip(before[jc].1, p.span_spec(), spec_cell_index(a));
        assert(after =~= before);
    } else {
        assert(mid == before.push((spec_page_base(a), mask)));
        let jp = before.len() as int;
        assert(mid[jp].0 == spec_page_base(a));
        assert(j == jp);
        assert(mask & !mask == 0) by (bit_vector);
        assert(after =~= before.push((spec_page_base(a), 0u64)));
    }
}

#[derive(Debug, Clone, Copy, PartialEq, Eq, Structural)]
pub enum AllocFailure {
    NoMem,
    WontFit,
}

/// A small allocation: a 48-bit cell address tagged, in bits [48, 64), with
/// the number of 64-byte cells the allocation spans.
#[derive(Debug, Clone, Copy)]
pub struct RawMemoryPtr {
    word: u64,
}

impl View for RawMemoryPtr {
    type V = u64;

    closed spec fn view(&self) -> u64 {
        self.word
    }
}

impl RawMemoryPtr {
    /// The 48-bit address part of the tagged word.
    pub open spec fn addr_spec(&self) -> u64 {
        self@ & 0xFFFF_FFFF_FFFF
    }

    /// The span part of the tagged word: how many cells the allocation holds.
    pub open spec fn span_spec(&self) -> u64 {
        self@ >> 48
    }

    pub fn null() -> (r: RawMemoryPtr)
        ensures
            r@ == 0,
    {
        RawMemoryPtr { word: 0 }
    }

    pub fn is_null(&self) -> (r: bool)
        ensures
            r == (self@ == 0),
    {
        self.word == 0
    }

    pub(crate) fn new(addr: u64, block_span: usize) -> (r: RawMemoryPtr)
        requires
            addr < 0x1_0000_0000_0000,
            block_span <= 63,
        ensures
            r.addr_spec() == addr,
            r.span_spec() == block_span as u64,
    {
        let mtd = block_span as u64;
        let combined = (mtd << 48) | addr;
        proof {
            assert(((mtd << 48) | addr) & 0xFFFF_FFFF_FFFF == addr && ((mtd << 48) | addr) >> 48
                == mtd) by (bit_vector)
                requires
                    addr < 0x1_0000_0000_0000u64,
                    mtd <= 63,
            ;
        }
        RawMemoryPtr { word: combined }
    }

    pub(crate) fn unpack(&self) -> (r: (u64, usize))
        ensures
            r.0 == self.addr_spec(),
            r.1 == self.span_spec(),
    {
        let w = self.word;
        let ptr = w & 0xFFFF_FFFF_FFFF;
        let span = w >> 48;
        proof {
            assert(w >> 48 <= 0xFFFF && (w & 0xFFFF_FFFF_FFFF) == w & 0xFFFF_FFFF_FFFF)
                by (bit_vector);
        }
        (ptr, span as usize)
    }

    /// The allocation's address, stripped of its span tag.
    pub fn get_ptr(&self) -> (r: u64)
        ensures
            r == self.addr_spec(),
    {
        self.unpack().0
    }
}

/// The 4 KiB page base an allocation's address points into.
pub open spec fn spec_page_base(addr: u64) -> u64 {
    (addr - (addr % 4096)) as u64
}

/// The payload cell index an allocation's address points at: its offset in
/// the page, in cells, minus one for the metadata cell.
pub open spec fn spec_cell_index(addr: u64) -> u64 {
    (((addr % 4096) / 64) - 1) as u64
}

/// Cells a `size`-byte allocation spans.
pub open spec fn spec_block_span(size: u64) -> u64 {
    ((size + 63) / 64) as u64
}

/// A tagged pointer that points at a whole span of payload cells of some
/// slab page: cell-aligned, past the metadata cell, span inside the page.
pub open spec fn wf_slab_ptr(p: RawMemoryPtr) -> bool {
    let a = p.addr_spec();
    &&& a % 64 == 0
    &&& a % 4096 >= 64
    &&& p.span_spec() + (a % 4096) / 64 <= 64
}

/// The slab allocator can serve `size` bytes at `alignment`: metadata takes
/// 64 bytes of the 4096, and a request stricter-aligned than its size may
/// need up to `alignment` extra bytes of slack.
pub open spec fn can_allocate_spec(size: u64, alignment: u64) -> bool {
    (if alignment > size {
        size + alignment
    } else {
        size as int
    }) <= 4032
}

/// What `smalloc` guarantees of a served allocation against the page list
/// it returns: a well-formed, correctly aligned tagged pointer whose span's
/// bits are set in the occupation map of its (listed) page.
pub open spec fn ok_alloc(pages: Seq<(u64, u64)>, size: u64, alignment: u64, p: RawMemoryPtr) -> bool {
    let a = p.addr_spec();
    let s = p.span_spec();
    &&& can_allocate_spec(size, alignment)
    &&& s == spec_block_span(size)
    &&& wf_slab_ptr(p)
    &&& a % (alignment as u64) == 0
    &&& exists|j: int|
        0 <= j < pages.len() && (#[trigger] pages[j]).0 == spec_page_base(a) && pages[j].1
            & span_mask(s, spec_cell_index(a)) == span_mask(s, spec_cell_index(a))
}

/// Exact effect of a successful allocation on the page list: either one
/// existing page gains exactly the claimed span's bits, which were zero
/// before, or one fresh page was appended and holds exactly those bits.
/// Nothing else changes.
pub open spec fn alloc_step(
    old_pages: Seq<(u64, u64)>,
    new_pages: Seq<(u64, u64)>,
    p: RawMemoryPtr,
) -> bool {
    let a = p.addr_spec();
    let mask = span_mask(p.span_spec(), spec_cell_index(a));
    ||| exists|j: int|
        {
            &&& 0 <= j < old_pages.len()
            &&& (#[trigger] old_pages[j]).0 == spec_page_base(a)
            &&& old_pages[j].1 & mask == 0
            &&& new_pages == old_pages.update(j, (old_pages[j].0, old_pages[j].1 | mask))
        }
    ||| new_pages == old_pages.push((spec_page_base(a), mask))
}

/// One slab page of the allocator's list: its base address and the
/// occupation map of its 63 cells.
#[derive(Debug, Clone, Copy)]
struct SlabPage {
    base: u64,
    map: OccupationMap,
}

/// The small-allocation allocator: a list of 4 KiB slab pages, each carved
/// into 63 cells of 64 bytes, tracked by an occupation bitmap. Single-owner:
/// callers needing sharing synchronize externally.
pub struct SlabAllocator {
    pages: Vec<SlabPage>,
}

impl View for SlabAllocator {
    type V = Seq<(u64, u64)>;

    closed spec fn view(&self) -> Seq<(u64, u64)> {
        self.pages@.map(|i: int, p: SlabPage| (p.base, p.map@))
    }
}

pub open spec fn slab_pages_wf(pages: Seq<(u64, u64)>) -> bool {
    forall|i: int|
        0 <= i < pages.len() ==> block_addr_wf((#[trigger] pages[i]).0) && map_wf(pages[i].1)
}

impl SlabAllocator {
    pub open spec fn wf(&self) -> bool {
        slab_pages_wf(self@)
    }

    pub const MAX_ALLOC_SIZE_IN_BYTES: usize = 4032;

    pub fn new() -> (r: SlabAllocator)
        ensures
            r.wf(),
            r@.len() == 0,
    {
        SlabAllocator { pages: Vec::new() }
    }

    /// Formats a fresh block as the allocator's first slab page.
    fn do_first_init(&mut self, page: Block4KPtr)
        requires
            old(self)@.len() == 0,
            page.wf(),
        ensures
            final(self).wf(),
            final(self)@.len() == 1,
            final(self)@[0] == (page@, 0u64),
    {
        self.pages.push(SlabPage { base: page.get_ptr(), map: OccupationMap::new() });
    }

    /// True iff a request of `size` bytes at `alignment` can ever be served
    /// from one slab page. Conservative: a successful `smalloc` implies it.
    pub fn can_allocate(size: usize, alignment: usize) -> (r: bool)
        requires
            is_pow2(alignment as u64),
        ensures
            r == can_allocate_spec(size as u64, alignment as u64),
    {
        let size64 = size as u64;
        let al = alignment as u64;
        proof {
            assert(al <= 0x8000_0000_0000_0000) by (bit_vector)
                requires
                    al != 0 && al & ((al - 1) as u64) == 0,
            ;
        }
        let adjusted = if al > size64 {
            size64 + al
        } else {
            size64
        };
        adjusted <= 4032
    }

    /// Tries to claim a span of `block_span` cells in page `i`, returning the
    /// tagged cell pointer on success and leaving everything untouched on
    /// failure.
    fn try_page(&mut self, i: usize, block_span: usize, alignment: usize) -> (r: Option<
        RawMemoryPtr,
    >)
        requires
            old(self).wf(),
            i < old(self)@.len(),
            block_span <= 63,
            is_pow2(alignment as u64),
            alignment <= 4032,
        ensures
            final(self).wf(),
            final(self)@.len() == old(self)@.len(),
            forall|m: int|
                0 <= m < old(self)@.len() && m != i ==> final(self)@[m] == old(self)@[m],
            final(self)@[i as int].0 == old(self)@[i as int].0,
            r is None ==> final(self)@ == old(self)@,
            r is None ==> forall|k: u64|
                !(#[trigger] valid_span_start(
                    old(self)@[i as int].1,
                    block_span as u64,
                    alignment as u64,
                    k,
                )),
            r matches Some(p) ==> ({
                let a = p.addr_spec();
                let mask = span_mask(block_span as u64, spec_cell_index(a));
                &&& p.span_spec() == block_span as u64
                &&& wf_slab_ptr(p)
                &&& a % (alignment as u64) == 0
                &&& spec_page_base(a) == final(self)@[i as int].0
                &&& old(self)@[i as int].1 & mask == 0
                &&& final(self)@[i as int].1 == old(self)@[i as int].1 | mask
                &&& final(self)@[i as int].1 & mask == mask
            }),
    {
        let pg = self.pages[i];
        let mut m = pg.map;
        proof {
            assert(self@[i as int] == (pg.base, pg.map@));
        }
        let res = m.try_find_span(block_span, alignment);
        match res {
            Some(k) => {
                self.pages.set(i, SlabPage { base: pg.base, map: m });
                proof {
                    assert forall|n: int| 0 <= n < self@.len() implies #[trigger] self@[n] == old(
                        self,
                    )@.update(i as int, (pg.base, m@))[n] by {}
                    assert(self@ =~= old(self)@.update(i as int, (pg.base, m@)));
                }
                let kk = k as u64;
                let al = alignment as u64;
                proof {
                    let ghost mapbits = old(self)@[i as int].1;
                    if block_span == 0 {
                        // an empty span fits at the alignment mask itself, so
                        // the lowest hit is no higher
                        assert(prop_align_of(al) <= 62 && prop_align_of(al) & prop_align_of(al)
                            == prop_align_of(al) && mapbits & span_mask(0, prop_align_of(al))
                            == 0) by (bit_vector)
                            requires
                                al != 0,
                                al & ((al - 1) as u64) == 0,
                                al <= 4032u64,
                        ;
                        assert(valid_span_start(mapbits, 0, al, prop_align_of(al)));
                        assert(kk <= prop_align_of(al));
                    }
                    lemma_cell_addr(pg.base, kk, al);
                }
                let addr = pg.base + 64 * (kk + 1);
                let p = RawMemoryPtr::new(addr, block_span);
                Some(p)
            },
            None => None,
        }
    }

    /// Serves `size` bytes at `alignment` from the page list, pulling fresh
    /// 4 KiB blocks from `page_source` on demand: first request when the list
    /// is empty, and one more when every listed page refuses the span.
    /// `WontFit` exactly when the request can never fit a slab page; `NoMem`
    /// when the page source is exhausted (or when no page, not even a fresh
    /// one, has room for the requested span and alignment).
    pub fn smalloc<P: PageSource>(
        &mut self,
        size: usize,
        alignment: usize,
        page_source: &mut P,
    ) -> (r: Result<RawMemoryPtr, AllocFailure>)
        requires
            old(self).wf(),
            old(page_source).source_wf(),
            is_pow2(alignment as u64),
        ensures
            final(self).wf(),
            final(page_source).source_wf(),
            final(self)@.len() >= old(self)@.len(),
            forall|i: int|
                0 <= i < old(self)@.len() ==> (#[trigger] final(self)@[i]).0 == old(self)@[i].0,
            (r matches Err(AllocFailure::WontFit)) == !can_allocate_spec(
                size as u64,
                alignment as u64,
            ),
            // failures leave every page's occupancy untouched: the list stays
            // as it was, or gains at most one fresh, still-empty page
            r matches Err(AllocFailure::WontFit) ==> final(self)@ == old(self)@,
            r is Err ==> final(self)@ == old(self)@ || (exists|b: u64|
                block_addr_wf(b) && final(self)@ == old(self)@.push((b, 0u64))),
            // success is owed: memory exhaustion is only reported when no
            // page of the final list, a granted fresh one included, had a
            // valid span for the request
            r matches Err(AllocFailure::NoMem) ==> forall|j: int, k: u64|
                0 <= j < final(self)@.len() ==> !(#[trigger] valid_span_start(
                    final(self)@[j].1,
                    spec_block_span(size as u64),
                    alignment as u64,
                    k,
                )),
            r matches Ok(p) ==> ok_alloc(final(self)@, size as u64, alignment as u64, p),
            r matches Ok(p) ==> alloc_step(old(self)@, final(self)@, p),
    {
        if !Self::can_allocate(size, alignment) {
            return Err(AllocFailure::WontFit);
        }
        let started_empty = self.pages.len() == 0;
        if started_empty {
            match page_source.try_get_free_page() {
                Some(page) => self.do_first_init(page),
                None => {
                    return Err(AllocFailure::NoMem);
                },
            }
        }
        let block_span = (size + 63) / 64;
        let ghost walk_start = self@;
        proof {
            if started_empty {
                assert(walk_start =~= old(self)@.push((walk_start[0].0, 0u64)));
            }
        }
        let mut i: usize = 0;
        while i < self.pages.len()
            invariant
                self.wf(),
                page_source.source_wf(),
                is_pow2(alignment as u64),
                alignment <= 4032,
                can_allocate_spec(size as u64, alignment as u64),
                block_span as u64 == spec_block_span(size as u64),
                block_span <= 63,
                i <= self@.len(),
                self@ == walk_start,
                started_empty ==> old(self)@.len() == 0 && walk_start.len() == 1
                    && walk_start[0].1 == 0 && block_addr_wf(walk_start[0].0),
                !started_empty ==> walk_start == old(self)@,
                forall|m: int, k: u64|
                    0 <= m < i ==> !(#[trigger] valid_span_start(
                        walk_start[m].1,
                        block_span as u64,
                        alignment as u64,
                        k,
                    )),
            decreases self@.len() - i,
        {
            match self.try_page(i, block_span, alignment) {
                Some(p) => {
                    proof {
                        let a = p.addr_spec();
                        let mask = span_mask(p.span_spec(), spec_cell_index(a));
                        assert(self@ =~= walk_start.update(
                            i as int,
                            (walk_start[i as int].0, walk_start[i as int].1 | mask),
                        ));
                        if started_empty {
                            assert(0u64 | mask == mask) by (bit_vector);
                            assert(self@ =~= old(self)@.push((spec_page_base(a), mask)));
                        }
                    }
                    return Ok(p);
                },
                None => {
                    i = i + 1;
                },
            }
        }
        if started_empty {
            // the lone page was freshly formatted and empty, and it refused
            // the span: a second fresh page would refuse it identically
            return Err(AllocFailure::NoMem);
        }
        // every listed page refused the span: try one fresh page
        match page_source.try_get_free_page() {
            None => Err(AllocFailure::NoMem),
            Some(new_page) => {
                let idx = self.pages.len();
                let ghost before = self@;
                self.pages.push(SlabPage { base: new_page.get_ptr(), map: OccupationMap::new() });
                proof {
                    assert forall|n: int| 0 <= n < self@.len() implies #[trigger] self@[n]
                        == before.push((new_page@, 0u64))[n] by {}
                    assert(self@ =~= before.push((new_page@, 0u64)));
                }
                match self.try_page(idx, block_span, alignment) {
                    Some(p) => {
                        proof {
                            let a = p.addr_spec();
                            let mask = span_mask(p.span_spec(), spec_cell_index(a));
                            assert(0u64 | mask == mask) by (bit_vector);
                            assert(self@ =~= old(self)@.push((spec_page_base(a), mask)));
                        }
                        Ok(p)
                    },
                    None => {
                        proof {
                            assert forall|j: int, k: u64|
                                0 <= j < self@.len() implies !(#[trigger] valid_span_start(
                                self@[j].1,
                                block_span as u64,
                                alignment as u64,
                                k,
                            )) by {
                                if j < idx as int {
                                } else {
                                }
                            }
                        }
                        Err(AllocFailure::NoMem)
                    },
                }
            },
        }
    }

    /// Returns an allocation to its owning slab page, found from the address
    /// alone: the page base is the address rounded down to 4 KiB, the cell
    /// index its offset in cells minus the metadata cell. The span's bits in
    /// that page's occupation map go back to zero.
    pub fn release_memory(&mut self, ptr: RawMemoryPtr)
        requires
            old(self).wf(),
            wf_slab_ptr(ptr),
            exists|j: int|
                0 <= j < old(self)@.len() && (#[trigger] old(self)@[j]).0 == spec_page_base(
                    ptr.addr_spec(),
                ),
        ensures
            final(self).wf(),
            final(self)@.len() == old(self)@.len(),
            exists|j: int|
                {
                    let mask = span_mask(ptr.span_spec(), spec_cell_index(ptr.addr_spec()));
                    &&& 0 <= j < old(self)@.len()
                    &&& (#[trigger] old(self)@[j]).0 == spec_page_base(ptr.addr_spec())
                    &&& final(self)@[j] == (old(self)@[j].0, old(self)@[j].1 & !mask)
                    &&& final(self)@[j].1 & mask == 0
                    &&& forall|m: int|
                        0 <= m < old(self)@.len() && m != j ==> final(self)@[m] == old(self)@[m]
                },
    {
        let (addr, span) = ptr.unpack();
        proof {
            assert(4096u64 & ((4096u64 - 1) as u64) == 0) by (bit_vector);
        }
        let page = align_backward(addr, 4096);
        proof {
            assert((addr & !((4096u64 - 1) as u64)) == (addr - addr % 4096) as u64 && addr % 4096
                <= addr && (addr % 4096) >> 6 == (addr % 4096) / 64) by (bit_vector);
        }
        let dist = addr - page;
        let index = (dist >> 6) - 1;
        let mut i: usize = 0;
        while i < self.pages.len()
            invariant
                self.wf(),
                self@ == old(self)@,
                i <= self@.len(),
                addr == ptr.addr_spec(),
                span == ptr.span_spec(),
                wf_slab_ptr(ptr),
                page == spec_page_base(addr),
                index == spec_cell_index(addr),
                exists|j: int|
                    i <= j < self@.len() && (#[trigger] self@[j]).0 == spec_page_base(
                        ptr.addr_spec(),
                    ),
            decreases self@.len() - i,
        {
            let pg = self.pages[i];
            proof {
                assert(self@[i as int] == (pg.base, pg.map@));
            }
            if pg.base == page {
                let mut m = pg.map;
                m.release_span(span, index as usize);
                self.pages.set(i, SlabPage { base: pg.base, map: m });
                proof {
                    assert forall|n: int| 0 <= n < self@.len() implies #[trigger] self@[n] == old(
                        self,
                    )@.update(i as int, (pg.base, m@))[n] by {}
                    assert(self@ =~= old(self)@.update(i as int, (pg.base, m@)));
                }
                return ;
            }
            i = i + 1;
        }
        proof {
            assert(false);
        }
    }
}

/// The bit-level facts about the address of cell `k` of the page at `base`:
/// cell-aligned, inside the payload area, satisfying the byte alignment the
/// cell index was chosen for, and decodable back to `base` and `k`.
#[verifier::rlimit(100)]
proof fn lemma_cell_addr(base: u64, k: u64, al: u64)
    by (bit_vector)
    requires
        base % 4096u64 == 0,
        base != 0,
        base <= 0xFFFF_FFFF_F000u64,
        k <= 62,
        al != 0,
        al & ((al - 1) as u64) == 0,
        al <= 4032,
        k & prop_align_of(al) == prop_align_of(al),
    ensures
        64 * (k + 1) <= 4032,
        ((base + 64 * (k + 1)) as u64) % 64 == 0,
        ((base + 64 * (k + 1)) as u64) % 4096 == 64 * (k + 1),
        ((base + 64 * (k + 1)) as u64) % al == 0,
        ((base + 64 * (k + 1)) as u64) < 0x1_0000_0000_0000,
        (((base + 64 * (k + 1)) as u64) - (((base + 64 * (k + 1)) as u64) % 4096)) as u64 == base,
        (((((base + 64 * (k + 1)) as u64) % 4096) / 64) - 1) as u64 == k,
{
}

} // verus!
