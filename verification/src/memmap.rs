//! Memory-system math: L1 cache-line range planning for DMA maintenance and
//! the MMU 1 MB section-descriptor table of the RZ/A1L address map.
use vstd::prelude::*;

verus! {

/// Cortex-A9 L1 D-cache line size in bytes (fixed for this SoC).
pub const L1_LINE_BYTES: usize = 32;

/// The start of the cache line holding `addr`.
pub open spec fn spec_line_floor(addr: usize) -> usize {
    (addr - addr % 32) as usize
}

/// Round `addr` down to its cache-line boundary.
pub fn line_floor(addr: usize) -> (r: usize)
    ensures
        r == spec_line_floor(addr),
        r % 32 == 0,
        r <= addr,
        addr - r < 32,
{
    let r = addr & !31usize;
    assert(addr & !31usize == addr - addr % 32) by (bit_vector);
    r
}

/// Number of `L1_LINE_BYTES` steps from `next` that stay below `end`.
pub open spec fn spec_line_count(next: usize, end: usize) -> nat {
    if next < end { ((end - next + 31) / 32) as nat } else { 0 }
}

/// The aligned addresses `next, next + 32, …` below `end`.
pub open spec fn spec_lines(next: usize, end: usize) -> Seq<usize> {
    Seq::new(spec_line_count(next, end), |k: int| (next + 32 * k) as usize)
}

/// The cache lines overlapping `[floor(start), end)`, produced one at a time
/// by [`CacheLines::next`].
#[derive(Clone, Copy, Debug)]
pub struct CacheLines {
    next: usize,
    end: usize,
}

impl View for CacheLines {
    type V = Seq<usize>;

    closed spec fn view(&self) -> Seq<usize> {
        spec_lines(self.next, self.end)
    }
}

impl CacheLines {
    /// Stepping never overflows: the end leaves room for one more line, or
    /// both bounds are line-aligned.
    pub closed spec fn wf(&self) -> bool {
        self.end <= usize::MAX - 31 || (self.next % 32 == 0 && self.end % 32 == 0)
    }

    /// The next line address, if any.
    pub fn next(&mut self) -> (r: Option<usize>)
        requires
            old(self).wf(),
        ensures
            final(self).wf(),
            old(self)@.len() == 0 ==> r is None && final(self)@ == old(self)@,
            old(self)@.len() > 0 ==> r == Some(old(self)@[0]) && final(self)@ == old(self)@.drop_first(),
    {
        if self.next < self.end {
            let a = self.next;
            proof {
                if !(self.end <= usize::MAX - 31) {
                    assert(self.next + 32 <= self.end) by (nonlinear_arith)
                        requires self.next < self.end, self.next % 32 == 0, self.end % 32 == 0;
                }
            }
            self.next = self.next + L1_LINE_BYTES;
            assert(self@ =~= old(self)@.drop_first());
            Some(a)
        } else {
            None
        }
    }

    /// All remaining line addresses, in order.
    pub fn to_vec(self) -> (v: Vec<usize>)
        requires
            self.wf(),
        ensures
            v@ == self@,
    {
        let ghost all = self@;
        let mut it = self;
        let mut v: Vec<usize> = Vec::new();
        assert(all =~= v@ + it@);
        loop
            invariant
                it.wf(),
                all == self@,
                all == v@ + it@,
            decreases it@.len(),
        {
            match it.next() {
                Some(a) => {
                    v.push(a);
                    assert(all =~= v@ + it@);
                },
                None => {
                    assert(all =~= v@ + it@);
                    return v;
                },
            }
        }
    }
}

/// The lines walked for `[start, end)` cover every byte of the range: the
/// byte at `a` lies in line `(floor(a) - floor(start)) / 32` of the walk, and
/// every line of the walk is aligned and overlaps the range.
pub proof fn lemma_cache_lines_cover(start: usize, end: usize, a: usize)
    requires
        start <= a < end,
    ensures
        ({
            let l = spec_lines(spec_line_floor(start), end);
            let k = (spec_line_floor(a) - spec_line_floor(start)) / 32;
            &&& 0 <= k < l.len()
            &&& l[k] == spec_line_floor(a)
            &&& l[k] <= a < l[k] + 32
            &&& forall|j: int| 0 <= j < l.len() ==> (#[trigger] l[j]) % 32 == 0 && l[j] < end
                && start < l[j] + 32
        }),
{
    let f = spec_line_floor(start) as int;
    let fa = spec_line_floor(a) as int;
    let s = start as int;
    let x = a as int;
    assert(f % 32 == 0 && fa % 32 == 0 && f <= fa && (fa - f) % 32 == 0) by (nonlinear_arith)
        requires
            f == s - s % 32,
            fa == x - x % 32,
            0 <= s <= x,
    ;
    let k = (fa - f) / 32;
    assert(fa == f + 32 * k) by (nonlinear_arith)
        requires
            (fa - f) % 32 == 0,
            k == (fa - f) / 32,
    ;
    assert(k + 1 <= (end - f + 31) / 32) by (nonlinear_arith)
        requires
            fa == f + 32 * k,
            fa <= x < end,
            k >= 0,
    ;
    let l = spec_lines(spec_line_floor(start), end);
    assert(l[k] == fa);
    assert forall|j: int| 0 <= j < l.len() implies (#[trigger] l[j]) % 32 == 0 && l[j] < end
        && start < l[j] + 32 by {
        assert(l[j] == f + 32 * j);
        assert((f + 32 * j) % 32 == 0 && f + 32 * j < end) by (nonlinear_arith)
            requires
                f % 32 == 0,
                0 <= j < (end - f + 31) / 32,
                f < end,
        ;
    }
}

/// Cache lines covering `[floor(start), end)` (the clean / clean-invalidate
/// loop).
pub fn cache_lines(start: usize, end: usize) -> (c: CacheLines)
    requires
        end <= usize::MAX - 31,
    ensures
        c.wf(),
        c@ == spec_lines(spec_line_floor(start), end),
{
    CacheLines { next: line_floor(start), end }
}

/// Plan for an *invalidate* over `[start, end)` (DMA read).
///
/// A plain invalidate of a partial boundary line would discard dirty bytes
/// outside the range, so the partial first/last lines are clean+invalidated;
/// the lines in `[inv_first, inv_last)` are plain-invalidated.
#[derive(Clone, Copy, PartialEq, Eq, Debug, Structural)]
pub struct DmaInvPlan {
    /// Clean+invalidate this line first iff `start` is not line-aligned.
    pub clean_inv_first: Option<usize>,
    /// Clean+invalidate this line iff `end` is not line-aligned.
    pub clean_inv_last: Option<usize>,
    /// First line to plain-invalidate.
    pub inv_first: usize,
    /// One past the last line to plain-invalidate.
    pub inv_last: usize,
}

impl DmaInvPlan {
    /// The interior lines to plain-invalidate.
    pub fn inv_lines(&self) -> (c: CacheLines)
        requires
            self.inv_last <= usize::MAX - 31 || (self.inv_first % 32 == 0 && self.inv_last % 32 == 0),
        ensures
            c.wf(),
            c@ == spec_lines(self.inv_first, self.inv_last),
    {
        CacheLines { next: self.inv_first, end: self.inv_last }
    }
}

/// The invalidate plan for `[start, end)`.
pub open spec fn spec_dma_inv_plan(start: usize, end: usize) -> DmaInvPlan {
    DmaInvPlan {
        clean_inv_first: if start % 32 != 0 { Some(spec_line_floor(start)) } else { None },
        clean_inv_last: if end % 32 != 0 { Some(spec_line_floor(end)) } else { None },
        inv_first: spec_line_floor(start),
        inv_last: spec_line_floor(end),
    }
}

/// Build the invalidate plan for `[start, end)`.
pub fn dma_inv_plan(start: usize, end: usize) -> (p: DmaInvPlan)
    ensures
        p == spec_dma_inv_plan(start, end),
        p.inv_first % 32 == 0,
        p.inv_last % 32 == 0,
{
    let first = line_floor(start);
    let last = line_floor(end);
    let s_mask = start & 31usize;
    let e_mask = end & 31usize;
    assert(start & 31usize == start % 32) by (bit_vector);
    assert(end & 31usize == end % 32) by (bit_vector);
    DmaInvPlan {
        clean_inv_first: if s_mask != 0 { Some(first) } else { None },
        clean_inv_last: if e_mask != 0 { Some(last) } else { None },
        inv_first: first,
        inv_last: last,
    }
}

/// Whether the plan touches the line at `line`: clean+invalidates it or
/// plain-invalidates it.
pub open spec fn plan_covers(p: DmaInvPlan, line: int) -> bool {
    ||| p.clean_inv_first == Some(line as usize)
    ||| p.clean_inv_last == Some(line as usize)
    ||| (p.inv_first <= line < p.inv_last && (line - p.inv_first) % 32 == 0)
}

/// The invalidate plan is complete and safe: every line overlapping
/// `[start, end)` is invalidated one way or the other, and any line that is
/// plain-invalidated while holding bytes outside `[start, end)` is also
/// clean+invalidated first, so no dirty data outside the range is lost.
pub proof fn lemma_dma_inv_plan_sound(start: usize, end: usize, line: int)
    requires
        start <= end,
        line % 32 == 0,
    ensures
        ({
            let p = spec_dma_inv_plan(start, end);
            &&& (line <= end - 1 && start < line + 32 && start < end) ==> plan_covers(p, line)
            &&& (p.inv_first <= line < p.inv_last && !(start <= line && line + 32 <= end))
                ==> p.clean_inv_first == Some(line as usize)
        }),
{
}

/// Strongly-ordered memory (device I/O).
pub const PARA_STRONGLY_ORDERED: u32 = 0x0DE2;
/// Normal non-cached.
pub const PARA_NORMAL_NOT_CACHE: u32 = 0x1DE2;
/// Normal write-back, write-allocate (fully cached).
pub const PARA_NORMAL_CACHE: u32 = 0x1DEE;

/// The area table — `(size_in_mb, attribute)` from low to high address,
/// mirroring the RZ/A1L address map.
pub open spec fn spec_areas() -> Seq<(u32, u32)> {
    seq![
        (128u32, PARA_NORMAL_CACHE),      // CS0/CS1 NOR flash      0x0000_0000
        (128u32, PARA_NORMAL_CACHE),      // CS2/CS3 SDRAM          0x0800_0000
        (128u32, PARA_STRONGLY_ORDERED),  // CS4/CS5                0x1000_0000
        (128u32, PARA_NORMAL_CACHE),      // SPI / SPI2 serial      0x1800_0000
        (10u32, PARA_NORMAL_CACHE),       // internal SRAM          0x2000_0000
        (502u32, PARA_STRONGLY_ORDERED),  // I/O area 1             0x20A0_0000
        (128u32, PARA_NORMAL_NOT_CACHE),  // CS0/CS1 mirror         0x4000_0000
        (128u32, PARA_NORMAL_NOT_CACHE),  // CS2/CS3 mirror (SDRAM) 0x4800_0000
        (128u32, PARA_STRONGLY_ORDERED),  // CS4/CS5 mirror         0x5000_0000
        (128u32, PARA_NORMAL_NOT_CACHE),  // SPI mirror             0x5800_0000
        (10u32, PARA_NORMAL_NOT_CACHE),   // SRAM mirror            0x6000_0000
        (2550u32, PARA_STRONGLY_ORDERED), // I/O area 2             0x60A0_0000
    ]
}

/// The area table.
pub fn areas() -> (a: Vec<(u32, u32)>)
    ensures
        a@ == spec_areas(),
{
    let a = vec![
        (128u32, PARA_NORMAL_CACHE),
        (128u32, PARA_NORMAL_CACHE),
        (128u32, PARA_STRONGLY_ORDERED),
        (128u32, PARA_NORMAL_CACHE),
        (10u32, PARA_NORMAL_CACHE),
        (502u32, PARA_STRONGLY_ORDERED),
        (128u32, PARA_NORMAL_NOT_CACHE),
        (128u32, PARA_NORMAL_NOT_CACHE),
        (128u32, PARA_STRONGLY_ORDERED),
        (128u32, PARA_NORMAL_NOT_CACHE),
        (10u32, PARA_NORMAL_NOT_CACHE),
        (2550u32, PARA_STRONGLY_ORDERED),
    ];
    assert(a@ =~= spec_areas());
    a
}

/// Sections (1 MB each) covered by the first `n` areas.
pub open spec fn spec_sections_before(n: int) -> int
    decreases n,
{
    if n <= 0 { 0 } else { spec_sections_before(n - 1) + spec_areas()[n - 1].0 }
}

/// The area table maps every 1 MB section of the 4 GB address space exactly
/// once: its sizes sum to 4096.
pub proof fn lemma_areas_fill_4gb()
    ensures
        spec_sections_before(12) == 4096,
{
    reveal_with_fuel(spec_sections_before, 13);
}

/// The attribute the area table assigns to section `section` (searching the
/// areas from index `i`).
pub open spec fn spec_attr_from(section: int, i: int) -> u32
    decreases 12 - i,
{
    if i >= 12 {
        0
    } else if section < spec_sections_before(i + 1) {
        spec_areas()[i].1
    } else {
        spec_attr_from(section, i + 1)
    }
}

/// The attribute assigned to physical address `pa` by the area table.
pub fn area_attr(pa: u32) -> (attr: u32)
    ensures
        attr == spec_attr_from((pa / 0x10_0000) as int, 0),
{
    let table = areas();
    let section = pa / 0x10_0000;
    let mut idx: u32 = 0;
    let mut i: usize = 0;
    while i < 12
        invariant
            0 <= i <= 12,
            table@ == spec_areas(),
            idx as int == spec_sections_before(i as int),
            idx <= 4096,
            section < 4096,
            section == pa / 0x10_0000,
            spec_attr_from(section as int, 0) == spec_attr_from(section as int, i as int),
        decreases 12 - i,
    {
        proof {
            reveal_with_fuel(spec_sections_before, 13);
        }
        let (mb, attr) = table[i];
        assert(spec_sections_before(i + 1) == spec_sections_before(i as int) + spec_areas()[i as int].0);
        if section < idx + mb {
            assert(spec_attr_from(section as int, i as int) == spec_areas()[i as int].1);
            return attr;
        }
        assert(spec_attr_from(section as int, i as int) == spec_attr_from(section as int, i + 1));
        idx = idx + mb;
        i += 1;
    }
    proof {
        reveal_with_fuel(spec_sections_before, 13);
    }
    0
}

/// Encode a 1 MB section descriptor for L1-section index `index`
/// (`index == physical_address >> 20`) with attribute bits `attr`:
/// `(index << 20) | (attr & 0xF_FFFF)`, a flat VA=PA section entry.
pub fn ttb_section_descriptor(index: u32, attr: u32) -> (d: u32)
    ensures
        d == (index << 20) | (attr & 0x000F_FFFF),
{
    (index << 20) | (attr & 0x000F_FFFF)
}

/// A section descriptor keeps the section index in its top 12 bits and the
/// low 20 bits of the attribute below them.
pub proof fn lemma_section_descriptor_fields(index: u32, attr: u32)
    requires
        index < 4096,
    ensures
        ((index << 20) | (attr & 0x000F_FFFF)) >> 20 == index,
        ((index << 20) | (attr & 0x000F_FFFF)) & 0x000F_FFFF == attr & 0x000F_FFFF,
{
    assert(((index << 20) | (attr & 0x000F_FFFF)) >> 20 == index) by (bit_vector)
        requires index < 4096;
    assert(((index << 20) | (attr & 0x000F_FFFF)) & 0x000F_FFFF == attr & 0x000F_FFFF) by (bit_vector);
}

} // verus!
