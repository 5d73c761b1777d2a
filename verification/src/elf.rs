//! Load planning for ELF32-LE ARM firmware images.
//!
//! An app image that targets upper SRAM (`0x2002_0000+`) would corrupt the
//! running bootloader if its `PT_LOAD` segments were written directly, so
//! SRAM-targeting segments are staged in SDRAM and relocated later by a
//! trampoline running from data-retention RAM (`0x2000_0000–0x2001_FFFF`).
//! SDRAM-targeting segments (`0x0C00_0000–0x0EFF_FFFF`) are written directly.
//!
//! This module decides everything about a load from the bytes of the ELF and
//! program headers: whether the image is acceptable, where each segment goes,
//! what the trampoline must relocate, and how progress is reported.  Reading
//! the file and writing memory is the caller's job.
use vstd::prelude::*;
use crate::bytes::{le16, le32, spec_le16, spec_le32};

verus! {

/// Length of the ELF32 file header.
pub const ELF_HEADER_LEN: usize = 52;
/// Length of one ELF32 program header.
pub const PHDR_LEN: usize = 32;
/// Maximum number of program headers processed.
pub const MAX_PHDRS: usize = 8;
/// Chunk size for streamed segment copies (one FAT sector).
pub const CHUNK: usize = 512;
/// Program header type: loadable segment.
pub const PT_LOAD: u32 = 1;
/// ELF type: executable file.
pub const ET_EXEC: u16 = 2;
/// ELF machine: ARM.
pub const EM_ARM: u16 = 0x28;

/// Base of the SRAM region that apps are permitted to target.
pub const SRAM_LOAD_ORIGIN: u32 = 0x2002_0000;
/// One past the top of the SRAM load region.
pub const SRAM_LOAD_END: u32 = 0x2030_0000;
/// Base of the data-retention RAM reserved for the trampoline.
pub const RETENTION_BASE: u32 = 0x2000_0000;
/// Base of the SDRAM region that apps may target directly.
pub const SDRAM_LOAD_ORIGIN: u32 = 0x0C00_0000;
/// Staging area in SDRAM for SRAM-targeting segments: a segment for SRAM
/// address `p` is written to `SDRAM_STAGE_BASE + (p - SRAM_LOAD_ORIGIN)`.
pub const SDRAM_STAGE_BASE: u32 = 0x0F00_0000;
/// Offset between a cached address and its uncached mirror alias.
pub const UNCACHED_MIRROR_OFFSET: u32 = 0x4000_0000;

/// Descriptor for one SRAM-targeting `PT_LOAD` segment, handed to the
/// relocation trampoline.
#[derive(Clone, Copy, Debug, PartialEq, Eq, Structural)]
pub struct SramSegDesc {
    /// Source address (SDRAM staging area).
    pub src: u32,
    /// Final SRAM destination address.
    pub dst: u32,
    /// Bytes to copy from `src` to `dst`.
    pub filesz: u32,
    /// Additional bytes to zero after the copy (`p_memsz - p_filesz`).
    pub zero_extra: u32,
}

/// Errors from the ELF loader.
#[derive(Debug, Clone, Copy, PartialEq, Eq, Structural)]
pub enum ElfError {
    /// ELF magic bytes are not `\x7FELF`.
    BadMagic,
    /// Not a 32-bit little-endian ARM executable ELF.
    WrongFormat,
    /// A `PT_LOAD` segment's physical address is outside the permitted regions.
    BadLoadAddress,
    /// SD card / FAT read or seek error.
    Io,
    /// `read` returned 0 before the segment was fully copied.
    UnexpectedEof,
}

/// The fields of a validated ELF header that the loader uses.
#[derive(Clone, Copy, Debug, PartialEq, Eq, Structural)]
pub struct ElfHeader {
    /// Entry point (`e_entry`).
    pub entry: u32,
    /// File offset of the program header table (`e_phoff`).
    pub phoff: u32,
    /// Number of program headers (`e_phnum`, at most [`MAX_PHDRS`]).
    pub phnum: usize,
}

/// The header outcome: magic first, then class/encoding, type, machine,
/// program-header entry size (32) and count (≤ 8).
pub open spec fn spec_parse_header(h: Seq<u8>) -> Result<ElfHeader, ElfError> {
    if !(h[0] == 0x7F && h[1] == 0x45 && h[2] == 0x4C && h[3] == 0x46) {
        Err(ElfError::BadMagic)
    } else if h[4] != 1 || h[5] != 1 {
        Err(ElfError::WrongFormat)
    } else if spec_le16(h, 16) != 2 || spec_le16(h, 18) != 0x28 {
        Err(ElfError::WrongFormat)
    } else if spec_le16(h, 42) != 32 || spec_le16(h, 44) > 8 {
        Err(ElfError::WrongFormat)
    } else {
        Ok(ElfHeader {
            entry: spec_le32(h, 24) as u32,
            phoff: spec_le32(h, 28) as u32,
            phnum: spec_le16(h, 44) as usize,
        })
    }
}

/// Validate the 52-byte ELF header of a 32-bit little-endian ARM executable.
pub fn parse_header(hdr: &[u8]) -> (r: Result<ElfHeader, ElfError>)
    requires
        hdr@.len() >= ELF_HEADER_LEN,
    ensures
        r == spec_parse_header(hdr@),
{
    if !(hdr[0] == 0x7F && hdr[1] == 0x45 && hdr[2] == 0x4C && hdr[3] == 0x46) {
        return Err(ElfError::BadMagic);
    }
    if hdr[4] != 1 || hdr[5] != 1 {
        return Err(ElfError::WrongFormat);
    }
    if le16(hdr, 16) != ET_EXEC {
        return Err(ElfError::WrongFormat);
    }
    if le16(hdr, 18) != EM_ARM {
        return Err(ElfError::WrongFormat);
    }
    let entry = le32(hdr, 24);
    let phoff = le32(hdr, 28);
    let phentsize = le16(hdr, 42);
    let phnum = le16(hdr, 44);
    if phentsize != 32 {
        return Err(ElfError::WrongFormat);
    }
    if phnum > 8 {
        return Err(ElfError::WrongFormat);
    }
    Ok(ElfHeader { entry, phoff, phnum: phnum as usize })
}

/// The physical address an uncached mirror alias stands for.
pub open spec fn spec_mirror_to_phys(addr: u32) -> u32 {
    if (0x6000_0000 <= addr < 0x60A0_0000) || (0x4C00_0000 <= addr < 0x5000_0000) {
        (addr - UNCACHED_MIRROR_OFFSET) as u32
    } else {
        addr
    }
}

/// Resolve an uncached mirror-alias load address (OCRAM mirror
/// `0x6000_0000..0x60A0_0000`, SDRAM mirror `0x4C00_0000..0x5000_0000`) to
/// the cached physical address it shadows; other addresses are unchanged.
pub fn mirror_to_phys(addr: u32) -> (r: u32)
    ensures
        r == spec_mirror_to_phys(addr),
{
    if (0x6000_0000 <= addr && addr < 0x60A0_0000) || (0x4C00_0000 <= addr && addr < 0x5000_0000) {
        addr - UNCACHED_MIRROR_OFFSET
    } else {
        addr
    }
}

/// Where a `PT_LOAD` segment is written.
#[derive(Clone, Copy, Debug, PartialEq, Eq, Structural)]
pub enum SegTarget {
    /// Segment targets SDRAM (`0x0C00_0000–0x0EFF_FFFF`); write directly.
    Sdram,
    /// Segment targets upper SRAM (`0x2002_0000–0x202F_FFFF`); must be staged.
    Sram,
}

/// Classification of the range `addr..addr+len`: empty ranges are harmless
/// (direct), SDRAM below the staging window is direct, upper SRAM is staged,
/// anything else (including a range that wraps) is refused.
pub open spec fn spec_classify(addr: u32, len: u32) -> Option<SegTarget> {
    if len == 0 {
        Some(SegTarget::Sdram)
    } else if addr + len > u32::MAX {
        None
    } else if addr >= 0x0C00_0000 && addr + len <= 0x0F00_0000 {
        Some(SegTarget::Sdram)
    } else if addr >= 0x2002_0000 && addr + len <= 0x2030_0000 {
        Some(SegTarget::Sram)
    } else {
        None
    }
}

/// Return the target classification for `addr..addr+len`, or `None` if the
/// range is outside every permitted region.
pub fn classify_load_range(addr: u32, len: u32) -> (r: Option<SegTarget>)
    ensures
        r == spec_classify(addr, len),
{
    if len == 0 {
        return Some(SegTarget::Sdram);
    }
    let end = match addr.checked_add(len) {
        Some(e) => e,
        None => return None,
    };
    if addr >= 0x0C00_0000 && end <= 0x0F00_0000 {
        return Some(SegTarget::Sdram);
    }
    if addr >= 0x2002_0000 && end <= 0x2030_0000 {
        return Some(SegTarget::Sram);
    }
    None
}

/// How one `PT_LOAD` segment is loaded.
#[derive(Clone, Copy, Debug, PartialEq, Eq, Structural)]
pub struct SegmentPlan {
    /// File offset of the segment data (`p_offset`).
    pub file_offset: u32,
    /// The address the image asked for (`p_paddr`, possibly a mirror alias).
    pub paddr: u32,
    /// Where the bytes are written during the load phase.
    pub write_addr: u32,
    /// Bytes copied from the file (`p_filesz`).
    pub filesz: u32,
    /// Bytes occupied in memory (`p_memsz`); the tail past `filesz` is zeroed.
    pub memsz: u32,
    /// Whether the segment is staged in SDRAM for the trampoline.
    pub staged: bool,
}

impl SegmentPlan {
    /// The trampoline descriptor of a staged segment.
    pub open spec fn spec_desc(self) -> SramSegDesc {
        SramSegDesc {
            src: self.write_addr,
            dst: self.paddr,
            filesz: self.filesz,
            zero_extra: (self.memsz - self.filesz) as u32,
        }
    }

    /// The trampoline descriptor that relocates a staged segment.
    pub fn desc(&self) -> (d: SramSegDesc)
        requires
            self.filesz <= self.memsz,
        ensures
            d == self.spec_desc(),
    {
        SramSegDesc {
            src: self.write_addr,
            dst: self.paddr,
            filesz: self.filesz,
            zero_extra: self.memsz - self.filesz,
        }
    }
}

/// Whether a physical address lies in the data-retention RAM reserved for
/// the trampoline.
pub open spec fn in_retention(phys: u32) -> bool {
    RETENTION_BASE <= phys < SRAM_LOAD_ORIGIN
}

/// The plan for the 32-byte program header `ph`: `None` for a segment that
/// is not loaded (not `PT_LOAD`, or aimed at retention RAM), the segment's
/// placement, or the reason the image is refused.
pub open spec fn spec_plan_segment(ph: Seq<u8>) -> Result<Option<SegmentPlan>, ElfError> {
    let p_type = spec_le32(ph, 0);
    let p_offset = spec_le32(ph, 4) as u32;
    let p_paddr = spec_le32(ph, 12) as u32;
    let p_filesz = spec_le32(ph, 16) as u32;
    let p_memsz = spec_le32(ph, 20) as u32;
    let phys = spec_mirror_to_phys(p_paddr);
    if p_type != 1 {
        Ok(None)
    } else if p_filesz > p_memsz {
        Err(ElfError::WrongFormat)
    } else if in_retention(phys) {
        Ok(None)
    } else {
        match spec_classify(phys, p_memsz) {
            None => Err(ElfError::BadLoadAddress),
            Some(SegTarget::Sdram) => Ok(Some(SegmentPlan {
                file_offset: p_offset,
                paddr: p_paddr,
                write_addr: p_paddr,
                filesz: p_filesz,
                memsz: p_memsz,
                staged: false,
            })),
            Some(SegTarget::Sram) => Ok(Some(SegmentPlan {
                file_offset: p_offset,
                paddr: p_paddr,
                write_addr: (SDRAM_STAGE_BASE + (phys - SRAM_LOAD_ORIGIN)) as u32,
                filesz: p_filesz,
                memsz: p_memsz,
                staged: true,
            })),
        }
    }
}

/// Plan one program header (the first 32 bytes of `ph`).
///
/// Besides matching [`spec_plan_segment`], a planned segment never writes
/// outside its permitted region: a direct segment's physical range lies in
/// SDRAM below the staging window (or is empty), a staged segment's physical
/// range lies in upper SRAM and its staging range in the staging window, at
/// the same offset.
pub fn plan_segment(ph: &[u8]) -> (r: Result<Option<SegmentPlan>, ElfError>)
    requires
        ph@.len() >= PHDR_LEN,
    ensures
        r == spec_plan_segment(ph@),
        r matches Ok(Some(p)) ==> {
            let phys = spec_mirror_to_phys(p.paddr);
            &&& p.filesz <= p.memsz
            &&& !p.staged ==> (p.memsz == 0 || (SDRAM_LOAD_ORIGIN <= phys && phys + p.memsz
                <= SDRAM_STAGE_BASE))
            &&& p.staged ==> {
                &&& SRAM_LOAD_ORIGIN <= phys && phys + p.memsz <= SRAM_LOAD_END
                &&& p.write_addr - SDRAM_STAGE_BASE == phys - SRAM_LOAD_ORIGIN
                &&& SDRAM_STAGE_BASE <= p.write_addr
                &&& p.write_addr + p.memsz <= SDRAM_STAGE_BASE + (SRAM_LOAD_END - SRAM_LOAD_ORIGIN)
            }
        },
{
    let p_type = le32(ph, 0);
    if p_type != PT_LOAD {
        return Ok(None);
    }
    let p_offset = le32(ph, 4);
    let p_paddr = le32(ph, 12);
    let p_filesz = le32(ph, 16);
    let p_memsz = le32(ph, 20);
    if p_filesz > p_memsz {
        return Err(ElfError::WrongFormat);
    }
    let phys = mirror_to_phys(p_paddr);
    if RETENTION_BASE <= phys && phys < SRAM_LOAD_ORIGIN {
        return Ok(None);
    }
    match classify_load_range(phys, p_memsz) {
        None => Err(ElfError::BadLoadAddress),
        Some(SegTarget::Sdram) => Ok(Some(SegmentPlan {
            file_offset: p_offset,
            paddr: p_paddr,
            write_addr: p_paddr,
            filesz: p_filesz,
            memsz: p_memsz,
            staged: false,
        })),
        Some(SegTarget::Sram) => Ok(Some(SegmentPlan {
            file_offset: p_offset,
            paddr: p_paddr,
            write_addr: SDRAM_STAGE_BASE + (phys - SRAM_LOAD_ORIGIN),
            filesz: p_filesz,
            memsz: p_memsz,
            staged: true,
        })),
    }
}

/// A staged segment's staging range never overlaps the physical range of a
/// non-empty directly written segment, so staging cannot clobber image data.
pub proof fn lemma_staging_disjoint_from_direct(ph1: Seq<u8>, ph2: Seq<u8>, p: SegmentPlan, q: SegmentPlan)
    requires
        spec_plan_segment(ph1) == Ok::<Option<SegmentPlan>, ElfError>(Some(p)),
        spec_plan_segment(ph2) == Ok::<Option<SegmentPlan>, ElfError>(Some(q)),
        p.staged,
        !q.staged,
        q.memsz > 0,
    ensures
        spec_mirror_to_phys(q.paddr) + q.memsz <= p.write_addr,
        SDRAM_STAGE_BASE <= p.write_addr,
{
}

/// Whether the program header at index `i` counts towards the load progress
/// total: a `PT_LOAD` not aimed at retention RAM.
pub open spec fn counts_for_progress(phdrs: Seq<u8>, i: int) -> bool {
    spec_le32(phdrs, 32 * i) == 1 && !in_retention(spec_mirror_to_phys(spec_le32(phdrs, 32 * i + 12) as u32))
}

/// Saturating sum of `p_filesz` over the first `n` program headers that
/// count towards progress.
pub open spec fn spec_total_bytes(phdrs: Seq<u8>, n: int) -> u32
    decreases n,
{
    if n <= 0 {
        0
    } else {
        let prev = spec_total_bytes(phdrs, n - 1);
        if counts_for_progress(phdrs, n - 1) {
            let s = prev + spec_le32(phdrs, 32 * (n - 1) + 16);
            if s > u32::MAX { u32::MAX } else { s as u32 }
        } else {
            prev
        }
    }
}

/// Total bytes that will be streamed from the file for the first `phnum`
/// program headers in `phdrs` (the progress denominator).
pub fn total_load_bytes(phdrs: &[u8], phnum: usize) -> (t: u32)
    requires
        phnum <= MAX_PHDRS,
        phdrs@.len() >= phnum * PHDR_LEN,
    ensures
        t == spec_total_bytes(phdrs@, phnum as int),
{
    let mut total: u32 = 0;
    let mut i: usize = 0;
    while i < phnum
        invariant
            0 <= i <= phnum <= MAX_PHDRS,
            phdrs@.len() >= phnum * PHDR_LEN,
            total == spec_total_bytes(phdrs@, i as int),
        decreases phnum - i,
    {
        let base = i * PHDR_LEN;
        if le32(phdrs, base) == PT_LOAD {
            let paddr = le32(phdrs, base + 12);
            let phys = mirror_to_phys(paddr);
            if !(RETENTION_BASE <= phys && phys < SRAM_LOAD_ORIGIN) {
                total = total.saturating_add(le32(phdrs, base + 16));
            }
        }
        i += 1;
    }
    total
}

/// Load percentage after `copied` of `total` bytes (100 for an empty image),
/// as the byte the progress display compares.
pub open spec fn spec_percent(copied: u32, total: u32) -> u8 {
    if total == 0 {
        100
    } else {
        let scaled = if copied * 100 > u32::MAX { u32::MAX as int } else { copied * 100 };
        (scaled / (total as int)) as u8
    }
}

/// Load percentage after `copied` of `total` bytes.
pub fn load_percent(copied: u32, total: u32) -> (p: u8)
    ensures
        p == spec_percent(copied, total),
        copied <= total ==> p <= 100,
{
    if total == 0 {
        100
    } else {
        let scaled: u32 = if copied > u32::MAX / 100 { u32::MAX } else { copied * 100 };
        proof {
            if copied <= total {
                if copied > u32::MAX / 100 {
                    assert((u32::MAX as int) / (total as int) <= 100) by (nonlinear_arith)
                        requires total > u32::MAX / 100, total > 0;
                } else {
                    assert(copied * 100 <= total * 100) by (nonlinear_arith)
                        requires copied <= total;
                    assert((copied * 100) / (total as int) <= 100) by (nonlinear_arith)
                        requires copied * 100 <= total * 100, total > 0;
                }
            }
        }
        (scaled / total) as u8
    }
}

/// Running load progress: bytes copied so far, the total, and the last
/// percentage reported.
pub struct Progress {
    pub copied: u32,
    pub total: u32,
    pub last_percent: u8,
}

impl Progress {
    /// The report a progress callback is given: bytes copied and the total.
    pub open spec fn spec_report(&self) -> (u32, u32) {
        (self.copied, self.total)
    }

    /// Progress at the start of a load of `total` bytes. The initial report,
    /// `(0, total)`, is always made.
    pub fn start(total: u32) -> (p: Progress)
        ensures
            p.copied == 0,
            p.total == total,
            p.last_percent == (if total == 0 { 100u8 } else { 0u8 }),
            p.spec_report() == (0u32, total),
    {
        Progress { copied: 0, total, last_percent: if total == 0 { 100 } else { 0 } }
    }

    /// Account for `n` more bytes copied; returns whether the percentage
    /// changed, in which case it is reported.
    pub fn advance(&mut self, n: u32) -> (changed: bool)
        ensures
            final(self).total == old(self).total,
            final(self).copied == (if old(self).copied + n > u32::MAX { u32::MAX as int } else {
                old(self).copied + n }),
            changed == (spec_percent(final(self).copied, final(self).total) != old(self).last_percent),
            final(self).last_percent == (if changed { spec_percent(final(self).copied, final(self).total) }
                else { old(self).last_percent }),
    {
        self.copied = self.copied.saturating_add(n);
        let p = load_percent(self.copied, self.total);
        if p != self.last_percent {
            self.last_percent = p;
            true
        } else {
            false
        }
    }

    /// The report to make now (see [`Progress::spec_report`]): after
    /// [`Progress::start`], and after each [`Progress::advance`] that returns
    /// `true`.
    pub fn report(&self) -> (r: (u32, u32))
        ensures
            r == self.spec_report(),
    {
        (self.copied, self.total)
    }

    /// The closing report once every segment is copied: `(total, total)`
    /// while the last report was under 100%, else none.
    pub fn final_report(&self) -> (r: Option<(u32, u32)>)
        ensures
            r == if self.last_percent < 100 { Some((self.total, self.total)) } else {
                Option::<(u32, u32)>::None
            },
    {
        if self.last_percent < 100 {
            Some((self.total, self.total))
        } else {
            None
        }
    }

    /// Whether the closing 100% report is still owed.
    pub fn needs_final_report(&self) -> (b: bool)
        ensures
            b == (self.last_percent < 100),
    {
        self.last_percent < 100
    }
}

/// Bytes to ask the file for in the next read of a segment copy with
/// `remaining` bytes still to copy: at most one [`CHUNK`].
pub fn copy_request(remaining: u32) -> (n: usize)
    ensures
        n == if remaining < CHUNK { remaining as int } else { CHUNK as int },
{
    if (remaining as u64) < (CHUNK as u64) {
        remaining as usize
    } else {
        CHUNK
    }
}

/// The bytes still to copy after a read returned `n` of the `remaining`: a
/// read of nothing means the file ended inside the segment.
pub fn after_copy_read(remaining: u32, n: usize) -> (r: Result<u32, ElfError>)
    requires
        n <= remaining,
    ensures
        r == if n == 0 { Err(ElfError::UnexpectedEof) } else { Ok((remaining - n) as u32) },
{
    if n == 0 {
        Err(ElfError::UnexpectedEof)
    } else {
        Ok(remaining - n as u32)
    }
}

impl SegmentPlan {
    /// Where the zero fill after the copied bytes starts, and its length
    /// (`memsz - filesz`).
    pub fn zero_tail(&self) -> (r: (u32, u32))
        requires
            self.filesz <= self.memsz,
            self.write_addr + self.memsz <= u32::MAX,
        ensures
            r == ((self.write_addr + self.filesz) as u32, (self.memsz - self.filesz) as u32),
    {
        (self.write_addr + self.filesz, self.memsz - self.filesz)
    }
}

/// Result of a successful load.
pub struct LoadResult {
    /// Application entry point (`e_entry`).
    pub entry: u32,
    /// Descriptors for SRAM segments parked in SDRAM staging, in header order.
    pub sram_descs: Vec<SramSegDesc>,
    /// Number of valid entries in `sram_descs`.
    pub n_sram: usize,
}

/// The plans of the first `n` program headers that are loaded, in order, or
/// the first refusal among them.
pub open spec fn spec_plan_all(phdrs: Seq<u8>, n: int) -> Result<Seq<SegmentPlan>, ElfError>
    decreases n,
{
    if n <= 0 {
        Ok(Seq::empty())
    } else {
        match spec_plan_all(phdrs, n - 1) {
            Err(e) => Err(e),
            Ok(prev) => match spec_plan_segment(phdrs.subrange(32 * (n - 1), 32 * n)) {
                Err(e) => Err(e),
                Ok(None) => Ok(prev),
                Ok(Some(p)) => Ok(prev.push(p)),
            },
        }
    }
}

/// The trampoline descriptors of the staged plans in `plans`, in order.
pub open spec fn spec_staged_descs(plans: Seq<SegmentPlan>) -> Seq<SramSegDesc>
    decreases plans.len(),
{
    if plans.len() == 0 {
        Seq::empty()
    } else {
        let prev = spec_staged_descs(plans.drop_last());
        if plans.last().staged { prev.push(plans.last().spec_desc()) } else { prev }
    }
}

/// The trampoline descriptors are the descriptors of the staged plans, each
/// exactly once and in header order: as many descriptors as staged plans,
/// the `k`-th being the `k`-th staged plan's.
pub proof fn lemma_staged_descs_are_staged_plans(plans: Seq<SegmentPlan>)
    ensures
        spec_staged_descs(plans) == plans.filter(|p: SegmentPlan| p.staged).map_values(
            |p: SegmentPlan| p.spec_desc(),
        ),
    decreases plans.len(),
{
    reveal(Seq::filter);
    let pred = |p: SegmentPlan| p.staged;
    let f = |p: SegmentPlan| p.spec_desc();
    if plans.len() > 0 {
        lemma_staged_descs_are_staged_plans(plans.drop_last());
        let sub = plans.drop_last().filter(pred);
        assert(plans.filter(pred) == if pred(plans.last()) { sub.push(plans.last()) } else { sub });
        if plans.last().staged {
            assert(sub.push(plans.last()).map_values(f) =~= sub.map_values(f).push(plans.last().spec_desc()));
        }
    } else {
        assert(plans.filter(pred).map_values(f) =~= Seq::<SramSegDesc>::empty());
    }
}

/// The descriptor of a staged segment relocates it: it copies the
/// header's file size from the staging slot to the address the header asked
/// for, the slot sitting at the same offset in the staging window as the
/// target in upper SRAM, and zeroes the rest of the header's memory size.
pub proof fn lemma_staged_desc_relocates(ph: Seq<u8>, p: SegmentPlan)
    requires
        spec_plan_segment(ph) == Ok::<Option<SegmentPlan>, ElfError>(Some(p)),
        p.staged,
    ensures
        p.spec_desc().dst == spec_le32(ph, 12),
        p.spec_desc().filesz == spec_le32(ph, 16),
        p.spec_desc().filesz + p.spec_desc().zero_extra == spec_le32(ph, 20),
        p.spec_desc().src - SDRAM_STAGE_BASE == spec_mirror_to_phys(p.spec_desc().dst) - SRAM_LOAD_ORIGIN,
        SRAM_LOAD_ORIGIN <= spec_mirror_to_phys(p.spec_desc().dst),
{
}

/// Once planning has refused the image, later headers do not change the
/// outcome.
pub proof fn lemma_plan_all_err_sticky(phdrs: Seq<u8>, i: int, n: int)
    requires
        0 <= i <= n,
        spec_plan_all(phdrs, i) is Err,
    ensures
        spec_plan_all(phdrs, n) == spec_plan_all(phdrs, i),
    decreases n - i,
{
    if n > i {
        lemma_plan_all_err_sticky(phdrs, i, n - 1);
    }
}

/// Plan every loaded segment of the first `phnum` program headers of
/// `phdrs`, stopping at the first refusal.
pub fn plan_segments(phdrs: &[u8], phnum: usize) -> (r: Result<Vec<SegmentPlan>, ElfError>)
    requires
        phnum <= MAX_PHDRS,
        phdrs@.len() >= phnum * PHDR_LEN,
    ensures
        match (r, spec_plan_all(phdrs@, phnum as int)) {
            (Ok(v), Ok(s)) => v@ == s,
            (Err(e), Err(f)) => e == f,
            _ => false,
        },
{
    let mut plans: Vec<SegmentPlan> = Vec::new();
    let mut i: usize = 0;
    while i < phnum
        invariant
            0 <= i <= phnum <= MAX_PHDRS,
            phdrs@.len() >= phnum * PHDR_LEN,
            spec_plan_all(phdrs@, i as int) == Ok::<Seq<SegmentPlan>, ElfError>(plans@),
        decreases phnum - i,
    {
        let ph = slice_range(phdrs, i * PHDR_LEN, i * PHDR_LEN + PHDR_LEN);
        match plan_segment(ph.as_slice()) {
            Err(e) => {
                proof {
                    lemma_plan_all_err_sticky(phdrs@, i as int + 1, phnum as int);
                }
                return Err(e);
            },
            Ok(None) => {},
            Ok(Some(p)) => plans.push(p),
        }
        i += 1;
    }
    Ok(plans)
}

/// A copy of `s[start..end]`.
pub fn slice_range(s: &[u8], start: usize, end: usize) -> (v: Vec<u8>)
    requires
        start <= end <= s@.len(),
    ensures
        v@ == s@.subrange(start as int, end as int),
{
    let mut v: Vec<u8> = Vec::new();
    let mut i = start;
    while i < end
        invariant
            start <= i <= end <= s@.len(),
            v@ == s@.subrange(start as int, i as int),
        decreases end - i,
    {
        v.push(s[i]);
        i += 1;
    }
    v
}

/// The load result for `entry` and the segment plans: the staged segments'
/// descriptors, in header order.
pub fn load_result(entry: u32, plans: &Vec<SegmentPlan>) -> (r: LoadResult)
    requires
        forall|i: int| 0 <= i < plans@.len() ==> plans@[i].filesz <= plans@[i].memsz,
    ensures
        r.entry == entry,
        r.sram_descs@ == spec_staged_descs(plans@),
        r.n_sram == r.sram_descs@.len(),
{
    let mut descs: Vec<SramSegDesc> = Vec::new();
    let mut i: usize = 0;
    while i < plans.len()
        invariant
            0 <= i <= plans@.len(),
            forall|k: int| 0 <= k < plans@.len() ==> plans@[k].filesz <= plans@[k].memsz,
            descs@ == spec_staged_descs(plans@.subrange(0, i as int)),
        decreases plans@.len() - i,
    {
        proof {
            assert(plans@.subrange(0, i as int + 1).drop_last() =~= plans@.subrange(0, i as int));
        }
        if plans[i].staged {
            descs.push(plans[i].desc());
        }
        i += 1;
    }
    proof {
        assert(plans@.subrange(0, plans@.len() as int) =~= plans@);
    }
    let n = descs.len();
    LoadResult { entry, sram_descs: descs, n_sram: n }
}

} // verus!
