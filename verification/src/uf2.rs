//! UF2 block parsing, the erase-on-first-touch programming plan, and UF2 dump
//! rendering.
//!
//! When the host writes a `.uf2` file to the synthesized drive, each 512-byte
//! block is a self-describing [UF2] record carrying up to 476 bytes of payload
//! and the absolute target address to write it to.
//! [`Uf2Programmer::write_block`] validates a block and, if it targets the
//! firmware slot, says which flash sectors must be erased first (each sector
//! only the first time any of its bytes is touched in a session, since blocks
//! may arrive in any order and be resent) and which bytes to program.
//!
//! [UF2]: https://github.com/microsoft/uf2
use vstd::prelude::*;
use crate::bytes::{le32, spec_le32};
use crate::bot::{spec_le_bytes};

verus! {

/// UF2 block magics.
pub const UF2_MAGIC_START0: u32 = 0x0A32_4655;
pub const UF2_MAGIC_START1: u32 = 0x9E5D_5157;
pub const UF2_MAGIC_END: u32 = 0x0AB1_6F30;

/// Flag: the word at 0x1C is a familyID (not a file size).
pub const UF2_FLAG_FAMILY_PRESENT: u32 = 0x0000_2000;
/// Flag: block is not for flashing (metadata only).
pub const UF2_FLAG_NOT_MAIN_FLASH: u32 = 0x0000_0001;

/// UF2 familyID stamped on Deluge firmware images.  Blocks with another
/// family, or none, are ignored so a foreign image is never programmed.
pub const UF2_FAMILY_DELUGE: u32 = 0x6E27_5A1C;

pub const OFF_MAGIC0: usize = 0x00;
pub const OFF_MAGIC1: usize = 0x04;
pub const OFF_FLAGS: usize = 0x08;
pub const OFF_TARGET: usize = 0x0C;
pub const OFF_PAYLOAD_SIZE: usize = 0x10;
pub const OFF_BLOCK_NO: usize = 0x14;
pub const OFF_NUM_BLOCKS: usize = 0x18;
pub const OFF_FAMILY: usize = 0x1C;
pub const OFF_DATA: usize = 0x20;
pub const OFF_MAGIC_END: usize = 0x1FC;
/// Maximum payload bytes a UF2 block may carry.
pub const UF2_MAX_PAYLOAD: usize = 476;
/// UF2 block length.
pub const UF2_BLOCK_LEN: usize = 512;

/// Base of the cached memory-mapped flash window: flash offset 0 maps here.
pub const SPI_FLASH_BASE: u32 = 0x1800_0000;

/// Payload bytes per UF2 block when dumping flash (one NOR page per block).
pub const DUMP_PAYLOAD: u32 = 256;

/// Where the firmware slot lives in flash and its erase geometry.
#[derive(Clone, Copy, Debug)]
pub struct FlashSlot {
    /// Flash-relative offset of the slot.
    pub offset: u32,
    /// Slot length in bytes.
    pub len: u32,
    /// Erase-sector size in bytes.
    pub sector_size: u32,
}

impl FlashSlot {
    /// A usable slot: whole sectors, inside the 32-bit memory-mapped window.
    pub open spec fn wf(self) -> bool {
        &&& self.sector_size > 0
        &&& self.len > 0
        &&& self.len % self.sector_size == 0
        &&& self.offset % self.sector_size == 0
        &&& SPI_FLASH_BASE + self.offset + self.len <= u32::MAX
    }

    /// Memory-mapped address of the slot's first byte.
    pub open spec fn addr(self) -> int {
        SPI_FLASH_BASE + self.offset
    }

    /// Number of erase sectors in the slot.
    pub open spec fn sectors(self) -> int {
        self.len as int / self.sector_size as int
    }
}

/// What a 512-byte host sector is, as a UF2 block for the firmware slot.
#[derive(Clone, Copy, Debug, PartialEq, Eq, Structural)]
pub enum Uf2Parse {
    /// Not a UF2 block for us (bad magic, metadata-only, foreign family, or
    /// outside the slot) — e.g. FAT metadata.
    Ignored,
    /// A UF2 block for us with an impossible payload size.
    Invalid,
    /// A UF2 block for the slot.
    Block { target: u32, payload: u32, block_no: u32, num_blocks: u32 },
}

/// Classification of host sector `d` against `slot`.
pub open spec fn spec_parse(d: Seq<u8>, slot: FlashSlot) -> Uf2Parse {
    let flags = spec_le32(d, 0x08) as u32;
    let target = spec_le32(d, 0x0C);
    let payload = spec_le32(d, 0x10);
    if d.len() < 512 {
        Uf2Parse::Ignored
    } else if spec_le32(d, 0x00) != UF2_MAGIC_START0 || spec_le32(d, 0x04) != UF2_MAGIC_START1
        || spec_le32(d, 0x1FC) != UF2_MAGIC_END {
        Uf2Parse::Ignored
    } else if flags & UF2_FLAG_NOT_MAIN_FLASH != 0 {
        Uf2Parse::Ignored
    } else if flags & UF2_FLAG_FAMILY_PRESENT == 0 || spec_le32(d, 0x1C) != UF2_FAMILY_DELUGE {
        Uf2Parse::Ignored
    } else if payload == 0 || payload > UF2_MAX_PAYLOAD {
        Uf2Parse::Invalid
    } else if target < slot.addr() || target + payload > slot.addr() + slot.len {
        Uf2Parse::Ignored
    } else {
        Uf2Parse::Block {
            target: target as u32,
            payload: payload as u32,
            block_no: spec_le32(d, 0x14) as u32,
            num_blocks: spec_le32(d, 0x18) as u32,
        }
    }
}

/// Validate one host sector as a UF2 block for `slot`.
pub fn parse_block(data: &[u8], slot: &FlashSlot) -> (r: Uf2Parse)
    requires
        slot.wf(),
    ensures
        r == spec_parse(data@, *slot),
{
    if data.len() < UF2_BLOCK_LEN {
        return Uf2Parse::Ignored;
    }
    if le32(data, OFF_MAGIC0) != UF2_MAGIC_START0 || le32(data, OFF_MAGIC1) != UF2_MAGIC_START1
        || le32(data, OFF_MAGIC_END) != UF2_MAGIC_END {
        return Uf2Parse::Ignored;
    }
    let flags = le32(data, OFF_FLAGS);
    if flags & UF2_FLAG_NOT_MAIN_FLASH != 0 {
        return Uf2Parse::Ignored;
    }
    if flags & UF2_FLAG_FAMILY_PRESENT == 0 || le32(data, OFF_FAMILY) != UF2_FAMILY_DELUGE {
        return Uf2Parse::Ignored;
    }
    let target = le32(data, OFF_TARGET);
    let payload = le32(data, OFF_PAYLOAD_SIZE);
    if payload == 0 || payload > UF2_MAX_PAYLOAD as u32 {
        return Uf2Parse::Invalid;
    }
    let slot_lo = SPI_FLASH_BASE + slot.offset;
    let slot_hi = slot_lo + slot.len;
    if target < slot_lo || target as u64 + payload as u64 > slot_hi as u64 {
        return Uf2Parse::Ignored;
    }
    Uf2Parse::Block {
        target,
        payload,
        block_no: le32(data, OFF_BLOCK_NO),
        num_blocks: le32(data, OFF_NUM_BLOCKS),
    }
}

/// Outcome of feeding one host sector to [`Uf2Programmer::write_block`].
#[derive(Clone, Copy, PartialEq, Eq, Debug, Structural)]
pub enum Outcome {
    /// Sector is not a UF2 block for us — ignore (e.g. FAT metadata).
    Ignored,
    /// Block programmed.
    Programmed,
    /// Final block of the image programmed (`block_no + 1 == num_blocks`).
    Done,
    /// Block was a valid UF2 record but could not be programmed.
    Error,
}

/// The flash work for one UF2 block.
pub struct Uf2Plan {
    /// The block's outcome.
    pub outcome: Outcome,
    /// Flash-relative offsets of the sectors to erase first, in order.
    pub erase: Vec<u32>,
    /// Flash-relative offset to program, and the number of payload bytes
    /// (taken from the block at offset 0x20).
    pub program: Option<(u32, u32)>,
}

/// First and last slot-sector index touched by `[off, off + len)`.
pub open spec fn spec_sector_span(slot: FlashSlot, off: int, len: int) -> (int, int) {
    ((off - slot.offset) / slot.sector_size as int, (off + len - 1 - slot.offset) / slot.sector_size as int)
}

/// The slot sectors a host sector's block spans (none unless it is a block
/// for the slot).
pub open spec fn spec_block_span(d: Seq<u8>, slot: FlashSlot) -> Set<int> {
    match spec_parse(d, slot) {
        Uf2Parse::Block { target, payload, .. } => {
            let (first, last) = spec_sector_span(slot, target - SPI_FLASH_BASE, payload as int);
            Set::new(|i: int| first <= i <= last)
        },
        _ => Set::empty(),
    }
}

/// The sectors erased after a programmer that had erased `erased0` was
/// handed `blocks` in order.
pub open spec fn spec_erased_after(slot: FlashSlot, erased0: Set<int>, blocks: Seq<Seq<u8>>) -> Set<int>
    decreases blocks.len(),
{
    if blocks.len() == 0 {
        erased0
    } else {
        spec_erased_after(slot, erased0, blocks.drop_last()).union(spec_block_span(blocks.last(), slot))
    }
}

/// The sectors a block's plan erases when `erased` were erased before it:
/// those it spans that were not.
pub open spec fn spec_new_erases(slot: FlashSlot, erased: Set<int>, d: Seq<u8>) -> Set<int> {
    spec_block_span(d, slot).difference(erased)
}

proof fn lemma_erased_after_grows(slot: FlashSlot, erased0: Set<int>, blocks: Seq<Seq<u8>>, a: int, b: int)
    requires
        0 <= a <= b <= blocks.len(),
    ensures
        spec_erased_after(slot, erased0, blocks.take(a)).subset_of(spec_erased_after(slot, erased0, blocks.take(b))),
    decreases b - a,
{
    if a < b {
        lemma_erased_after_grows(slot, erased0, blocks, a, b - 1);
        assert(blocks.take(b).drop_last() =~= blocks.take(b - 1));
    }
}

/// Each slot sector is erased at most once per programmer: when blocks are
/// handed to one programmer in order, the sectors the plan of block `i`
/// erases and those the plan of a later block `j` erases never meet.
pub proof fn lemma_sector_erased_once(slot: FlashSlot, erased0: Set<int>, blocks: Seq<Seq<u8>>, i: int, j: int)
    requires
        0 <= i < j < blocks.len(),
    ensures
        spec_new_erases(slot, spec_erased_after(slot, erased0, blocks.take(i)), blocks[i]).disjoint(
            spec_new_erases(slot, spec_erased_after(slot, erased0, blocks.take(j)), blocks[j])),
{
    lemma_erased_after_grows(slot, erased0, blocks, i + 1, j);
    assert(blocks.take(i + 1).drop_last() =~= blocks.take(i));
    assert(blocks.take(i + 1).last() == blocks[i]);
    let before_i = spec_erased_after(slot, erased0, blocks.take(i));
    let after_i = spec_erased_after(slot, erased0, blocks.take(i + 1));
    assert(after_i == before_i.union(spec_block_span(blocks[i], slot)));
}

/// Stateful UF2 → flash programmer for a single update session.
pub struct Uf2Programmer {
    /// The slot being programmed.
    slot: FlashSlot,
    /// Entry `i` is set once slot sector `i` has been erased this session.
    erased: Vec<bool>,
    /// Count of successfully programmed blocks (for progress).
    blocks_done: u32,
    /// Total blocks in the image (from the last valid block seen).
    num_blocks: u32,
}

impl Uf2Programmer {
    /// Invariant: one erase flag per slot sector.
    pub closed spec fn wf(&self) -> bool {
        &&& self.slot.wf()
        &&& self.erased@.len() == self.slot.sectors()
    }

    /// The slot this session programs.
    pub closed spec fn spec_slot(&self) -> FlashSlot {
        self.slot
    }

    /// The slot sectors erased so far this session.
    pub closed spec fn erased_sectors(&self) -> Set<int> {
        Set::new(|i: int| 0 <= i < self.erased@.len() && self.erased@[i])
    }

    /// Programmed-blocks / total-blocks progress.
    pub closed spec fn spec_progress(&self) -> (u32, u32) {
        (self.blocks_done, self.num_blocks)
    }

    /// A fresh session for `slot`: nothing erased, nothing programmed.
    pub fn new(slot: FlashSlot) -> (p: Self)
        requires
            slot.wf(),
        ensures
            p.wf(),
            p.spec_slot() == slot,
            p.erased_sectors() == Set::<int>::empty(),
            p.spec_progress() == (0u32, 0u32),
    {
        let n = slot.len / slot.sector_size;
        let mut erased: Vec<bool> = Vec::new();
        let mut i: u32 = 0;
        while i < n
            invariant
                0 <= i <= n,
                n == slot.len / slot.sector_size,
                erased@.len() == i,
                forall|k: int| 0 <= k < i ==> !erased@[k],
            decreases n - i,
        {
            erased.push(false);
            i += 1;
        }
        let p = Self { slot, erased, blocks_done: 0, num_blocks: 0 };
        assert(p.erased_sectors() =~= Set::<int>::empty());
        p
    }

    /// Programmed-blocks / total-blocks progress (total is 0 until the first
    /// block).
    pub fn progress(&self) -> (r: (u32, u32))
        ensures
            r == self.spec_progress(),
    {
        (self.blocks_done, self.num_blocks)
    }

    /// Mark the sectors spanned by `[off, off+len)` erased, returning the
    /// flash-relative offsets of those that were not yet erased, in order.
    fn erase_for(&mut self, off: u32, len: u32) -> (erase: Vec<u32>)
        requires
            old(self).wf(),
            len > 0,
            old(self).slot.offset <= off,
            off + len <= old(self).slot.offset + old(self).slot.len,
        ensures
            final(self).wf(),
            final(self).slot == old(self).slot,
            final(self).blocks_done == old(self).blocks_done,
            final(self).num_blocks == old(self).num_blocks,
            ({
                let (first, last) = spec_sector_span(old(self).slot, off as int, len as int);
                &&& final(self).erased_sectors() == old(self).erased_sectors().union(
                    Set::new(|i: int| first <= i <= last))
                &&& forall|k: int| #![trigger erase@[k]] 0 <= k < erase@.len() ==> {
                    let i = (erase@[k] - old(self).slot.offset) / old(self).slot.sector_size as int;
                    &&& first <= i <= last
                    &&& !old(self).erased_sectors().contains(i)
                    &&& erase@[k] == old(self).slot.offset + i * old(self).slot.sector_size
                }
                &&& forall|i: int| first <= i <= last && !old(self).erased_sectors().contains(i)
                    ==> exists|k: int| 0 <= k < erase@.len() && erase@[k] == old(self).slot.offset + i * old(self).slot.sector_size
                &&& forall|a: int, b: int| 0 <= a < b < erase@.len() ==> erase@[a] < erase@[b]
            }),
    {
        let ss = self.slot.sector_size;
        let first = (off - self.slot.offset) / ss;
        let last = (off + len - 1 - self.slot.offset) / ss;
        proof {
            assert(last < self.slot.len as int / (ss as int)) by (nonlinear_arith)
                requires
                    off + len - 1 - self.slot.offset < self.slot.len,
                    last as int == (off + len - 1 - self.slot.offset) / (ss as int),
                    self.slot.len % ss == 0,
                    ss > 0;
            assert(first <= last) by (nonlinear_arith)
                requires
                    off - self.slot.offset <= off + len - 1 - self.slot.offset,
                    first as int == (off - self.slot.offset) / (ss as int),
                    last as int == (off + len - 1 - self.slot.offset) / (ss as int),
                    ss > 0;
            assert(self.slot.offset + last * ss <= self.slot.offset + self.slot.len) by (nonlinear_arith)
                requires
                    last < self.slot.len as int / (ss as int),
                    ss > 0;
        }
        let ghost old_erased = self.erased_sectors();
        let mut erase: Vec<u32> = Vec::new();
        let mut sector = first;
        while sector <= last
            invariant
                self.wf(),
                self.slot == old(self).slot,
                self.blocks_done == old(self).blocks_done,
                self.num_blocks == old(self).num_blocks,
                ss == self.slot.sector_size,
                first <= sector <= last + 1,
                first as int == (off - old(self).slot.offset) / (old(self).slot.sector_size as int),
                last as int == (off + len - 1 - old(self).slot.offset) / (old(self).slot.sector_size as int),
                last < self.slot.len as int / (ss as int),
                self.slot.offset + last * ss <= self.slot.offset + self.slot.len,
                old_erased == old(self).erased_sectors(),
                self.erased_sectors() == old_erased.union(Set::new(|i: int| first <= i < sector)),
                forall|k: int| #![trigger erase@[k]] 0 <= k < erase@.len() ==> {
                    let i = (erase@[k] - self.slot.offset) / ss as int;
                    &&& first <= i < sector
                    &&& !old_erased.contains(i)
                    &&& erase@[k] == self.slot.offset + i * ss
                },
                forall|i: int| first <= i < sector && !old_erased.contains(i)
                    ==> exists|k: int| 0 <= k < erase@.len() && erase@[k] == self.slot.offset + i * ss,
                forall|a: int, b: int| 0 <= a < b < erase@.len() ==> erase@[a] < erase@[b],
                forall|k: int| 0 <= k < erase@.len() ==> erase@[k] < self.slot.offset + sector * ss,
            decreases last + 1 - sector,
        {
            let idx = sector as usize;
            proof {
                assert(sector * ss <= last * ss) by (nonlinear_arith)
                    requires sector <= last;
            }
            let sector_off = self.slot.offset + sector * ss;
            let ghost prev = self.erased@;
            let ghost prev_set = self.erased_sectors();
            let ghost prev_erase = erase@;
            assert(prev_set.contains(sector as int) == prev[sector as int]);
            if !self.erased[idx] {
                proof {
                    assert((sector_off - self.slot.offset) / ss as int == sector) by (nonlinear_arith)
                        requires sector_off - self.slot.offset == sector * ss, ss > 0;
                    assert(!old_erased.contains(sector as int));
                }
                erase.push(sector_off);
                self.erased.set(idx, true);
                assert(erase@[erase@.len() - 1] == self.slot.offset + sector * ss);
            }
            proof {
                let new_range = Set::new(|i: int| first <= i < sector + 1);
                assert forall|i: int| self.erased_sectors().contains(i) == old_erased.union(new_range).contains(i) by {
                    if i == sector {
                        assert(self.erased@[i] == true);
                    } else {
                        assert(self.erased_sectors().contains(i) == prev_set.contains(i));
                    }
                }
                assert(self.erased_sectors() =~= old_erased.union(new_range));
                assert forall|k: int| 0 <= k < erase@.len() implies erase@[k] < self.slot.offset + (sector + 1) * ss by {
                    assert((sector + 1) * ss == sector * ss + ss) by (nonlinear_arith);
                }
                assert forall|i: int| first <= i < sector + 1 && !old_erased.contains(i)
                    implies exists|k: int| 0 <= k < erase@.len() && erase@[k] == self.slot.offset + i * ss by {
                    if i == sector {
                        let k = erase@.len() - 1;
                        assert(erase@[k] == self.slot.offset + i * ss);
                    } else {
                        let k = choose|k: int| 0 <= k < prev_erase.len() && prev_erase[k] == self.slot.offset + i * ss;
                        assert(erase@[k] == prev_erase[k]);
                    }
                }
            }
            if sector == last {
                proof {
                    let (f, l) = spec_sector_span(old(self).slot, off as int, len as int);
                    assert(f == first && l == last);
                    assert(Set::new(|i: int| first <= i < sector + 1) =~= Set::new(|i: int| f <= i <= l));
                    assert(self.erased_sectors() == old(self).erased_sectors().union(Set::new(|i: int| f <= i <= l)));
                    assert(forall|k: int| #![trigger erase@[k]] 0 <= k < erase@.len() ==> {
                        let i = (erase@[k] - old(self).slot.offset) / old(self).slot.sector_size as int;
                        &&& f <= i <= l
                        &&& !old(self).erased_sectors().contains(i)
                        &&& erase@[k] == old(self).slot.offset + i * old(self).slot.sector_size
                    });
                    assert(forall|i: int| f <= i <= l && !old(self).erased_sectors().contains(i)
                        ==> exists|k: int| 0 <= k < erase@.len() && erase@[k] == old(self).slot.offset + i * old(self).slot.sector_size);
                }
                return erase;
            }
            sector += 1;
        }
        erase
    }

    /// Validate one 512-byte host sector as a UF2 block and, if it targets the
    /// firmware slot, plan the erase-on-first-touch and the payload program.
    ///
    /// A block for the slot programs its payload at its flash offset after
    /// erasing the sectors it spans that were not yet erased; it counts one
    /// more block done, records the image's block count, and is the last one
    /// when `block_no + 1 == num_blocks` (for a non-zero count).
    pub fn write_block(&mut self, data: &[u8]) -> (plan: Uf2Plan)
        requires
            old(self).wf(),
        ensures
            final(self).wf(),
            final(self).spec_slot() == old(self).spec_slot(),
            final(self).erased_sectors() == old(self).erased_sectors().union(
                spec_block_span(data@, old(self).spec_slot())),
            match spec_parse(data@, old(self).spec_slot()) {
                Uf2Parse::Ignored => plan.outcome == Outcome::Ignored && plan.erase@.len() == 0
                    && plan.program is None && final(self).erased_sectors() == old(self).erased_sectors()
                    && final(self).spec_progress() == old(self).spec_progress(),
                Uf2Parse::Invalid => plan.outcome == Outcome::Error && plan.erase@.len() == 0
                    && plan.program is None && final(self).erased_sectors() == old(self).erased_sectors()
                    && final(self).spec_progress() == old(self).spec_progress(),
                Uf2Parse::Block { target, payload, block_no, num_blocks } => {
                    let off = target - SPI_FLASH_BASE;
                    let (first, last) = spec_sector_span(old(self).spec_slot(), off, payload as int);
                    &&& plan.program == Some(((target - SPI_FLASH_BASE) as u32, payload))
                    &&& final(self).erased_sectors() == old(self).erased_sectors().union(
                        Set::new(|i: int| first <= i <= last))
                    &&& forall|k: int| #![trigger plan.erase@[k]] 0 <= k < plan.erase@.len() ==> {
                        let i = (plan.erase@[k] - old(self).spec_slot().offset) / old(self).spec_slot().sector_size as int;
                        &&& first <= i <= last
                        &&& !old(self).erased_sectors().contains(i)
                        &&& plan.erase@[k] == old(self).spec_slot().offset + i * old(self).spec_slot().sector_size
                    }
                    &&& forall|i: int| first <= i <= last && !old(self).erased_sectors().contains(i)
                        ==> exists|k: int| 0 <= k < plan.erase@.len()
                            && plan.erase@[k] == old(self).spec_slot().offset + i * old(self).spec_slot().sector_size
                    &&& forall|a: int, b: int| 0 <= a < b < plan.erase@.len() ==> plan.erase@[a] < plan.erase@[b]
                    &&& final(self).spec_progress() == ((if old(self).spec_progress().0 == u32::MAX { u32::MAX as int }
                        else { old(self).spec_progress().0 + 1 }) as u32, num_blocks)
                    &&& plan.outcome == if num_blocks != 0 && block_no + 1 == num_blocks { Outcome::Done }
                        else { Outcome::Programmed }
                },
            },
    {
        match parse_block(data, &self.slot) {
            Uf2Parse::Ignored => Uf2Plan { outcome: Outcome::Ignored, erase: Vec::new(), program: None },
            Uf2Parse::Invalid => Uf2Plan { outcome: Outcome::Error, erase: Vec::new(), program: None },
            Uf2Parse::Block { target, payload, block_no, num_blocks } => {
                let off = target - SPI_FLASH_BASE;
                let erase = self.erase_for(off, payload);
                self.num_blocks = num_blocks;
                self.blocks_done = if self.blocks_done == u32::MAX { u32::MAX } else { self.blocks_done + 1 };
                let outcome = if num_blocks != 0 && block_no as u64 + 1 == num_blocks as u64 {
                    Outcome::Done
                } else {
                    Outcome::Programmed
                };
                Uf2Plan { outcome, erase, program: Some((off, payload)) }
            },
        }
    }
}

/// Number of UF2 blocks needed to dump `image_len` bytes.
pub open spec fn spec_dump_block_count(image_len: u32) -> u32 {
    (image_len / DUMP_PAYLOAD + if image_len % DUMP_PAYLOAD != 0 { 1u32 } else { 0u32 }) as u32
}

/// Number of UF2 blocks needed to dump `image_len` bytes.
pub fn dump_block_count(image_len: u32) -> (n: u32)
    ensures
        n == spec_dump_block_count(image_len),
{
    image_len / DUMP_PAYLOAD + if image_len % DUMP_PAYLOAD != 0 { 1 } else { 0 }
}

/// Payload size of dump block `index` of an `image_len`-byte image.
pub open spec fn spec_dump_payload(index: u32, image_len: u32) -> u32 {
    let off = index * DUMP_PAYLOAD;
    let rest = if image_len >= off { image_len - off } else { 0 };
    (if rest < DUMP_PAYLOAD { rest } else { DUMP_PAYLOAD as int }) as u32
}

/// Payload size of dump block `index` of an `image_len`-byte image.
pub fn dump_payload(index: u32, image_len: u32) -> (n: u32)
    requires
        index * DUMP_PAYLOAD <= u32::MAX,
    ensures
        n == spec_dump_payload(index, image_len),
{
    let off = index * DUMP_PAYLOAD;
    let rest = if image_len >= off { image_len - off } else { 0 };
    if rest < DUMP_PAYLOAD { rest } else { DUMP_PAYLOAD }
}

/// The 512-byte UF2 block `index` of a dump of `image_len` bytes of a slot at
/// memory-mapped address `slot_addr`, carrying `page` as payload.
pub open spec fn spec_dump_block(index: u32, image_len: u32, slot_addr: u32, page: Seq<u8>) -> Seq<u8> {
    spec_le_bytes(UF2_MAGIC_START0) + spec_le_bytes(UF2_MAGIC_START1) + spec_le_bytes(UF2_FLAG_FAMILY_PRESENT)
        + spec_le_bytes((slot_addr + index * DUMP_PAYLOAD) as u32) + spec_le_bytes(page.len() as u32)
        + spec_le_bytes(index) + spec_le_bytes(spec_dump_block_count(image_len))
        + spec_le_bytes(UF2_FAMILY_DELUGE) + page + Seq::new((476 - page.len()) as nat, |i: int| 0u8)
        + spec_le_bytes(UF2_MAGIC_END)
}

fn put_le32(out: &mut Vec<u8>, at: usize, x: u32)
    requires
        at + 4 <= old(out)@.len(),
        at <= UF2_BLOCK_LEN,
    ensures
        final(out)@ == old(out)@.subrange(0, at as int) + spec_le_bytes(x) + old(out)@.subrange(at + 4, old(out)@.len() as int),
{
    out.set(at, (x % 0x100) as u8);
    out.set(at + 1, ((x / 0x100) % 0x100) as u8);
    out.set(at + 2, ((x / 0x10000) % 0x100) as u8);
    out.set(at + 3, (x / 0x100_0000) as u8);
    assert(out@ =~= old(out)@.subrange(0, at as int) + spec_le_bytes(x) + old(out)@.subrange(at + 4, old(out)@.len() as int));
}

/// Render UF2 block `index` of a flash dump of `image_len` bytes starting at
/// the slot base `slot_addr`.  `page` is the block's payload: the
/// `min(256, image_len - index * 256)` flash bytes at
/// `slot_addr + index * 256`, which the caller reads from the memory-mapped
/// window.
pub fn render_dump_block(index: u32, image_len: u32, slot_addr: u32, page: &[u8]) -> (out: Vec<u8>)
    requires
        slot_addr + index * DUMP_PAYLOAD <= u32::MAX,
        page@.len() == spec_dump_payload(index, image_len),
    ensures
        out@ == spec_dump_block(index, image_len, slot_addr, page@),
        out@.len() == UF2_BLOCK_LEN,
{
    let total = dump_block_count(image_len);
    let addr = slot_addr + index * DUMP_PAYLOAD;
    let payload = page.len() as u32;
    let mut out: Vec<u8> = Vec::new();
    let mut i: usize = 0;
    while i < UF2_BLOCK_LEN
        invariant
            0 <= i <= UF2_BLOCK_LEN,
            out@ == Seq::new(i as nat, |k: int| 0u8),
        decreases UF2_BLOCK_LEN - i,
    {
        out.push(0);
        i += 1;
        assert(out@ =~= Seq::new(i as nat, |k: int| 0u8));
    }
    put_le32(&mut out, OFF_MAGIC0, UF2_MAGIC_START0);
    put_le32(&mut out, OFF_MAGIC1, UF2_MAGIC_START1);
    put_le32(&mut out, OFF_FLAGS, UF2_FLAG_FAMILY_PRESENT);
    put_le32(&mut out, OFF_TARGET, addr);
    put_le32(&mut out, OFF_PAYLOAD_SIZE, payload);
    put_le32(&mut out, OFF_BLOCK_NO, index);
    put_le32(&mut out, OFF_NUM_BLOCKS, total);
    put_le32(&mut out, OFF_FAMILY, UF2_FAMILY_DELUGE);
    let ghost header = out@.subrange(0, 32);
    let mut j: usize = 0;
    while j < page.len()
        invariant
            0 <= j <= page@.len() <= DUMP_PAYLOAD,
            out@.len() == UF2_BLOCK_LEN,
            out@.subrange(0, 32) == header,
            out@.subrange(32, 32 + j as int) == page@.subrange(0, j as int),
            forall|k: int| 32 + j <= k < UF2_BLOCK_LEN ==> out@[k] == 0u8,
        decreases page@.len() - j,
    {
        out.set(OFF_DATA + j, page[j]);
        j += 1;
        assert(out@.subrange(32, 32 + j as int) =~= page@.subrange(0, j as int));
        assert(out@.subrange(0, 32) =~= header);
    }
    let ghost before_end = out@;
    put_le32(&mut out, OFF_MAGIC_END, UF2_MAGIC_END);
    assert(page@.subrange(0, page@.len() as int) =~= page@);
    assert(out@ =~= spec_dump_block(index, image_len, slot_addr, page@));
    out
}

/// The little-endian bytes of `x` read back as a little-endian word give `x`.
pub proof fn lemma_le_bytes_round_trip(x: u32)
    ensures
        spec_le32(spec_le_bytes(x), 0) == x,
{
    let b = spec_le_bytes(x);
    assert(b[0] == x % 0x100);
    assert(b[1] == (x / 0x100) % 0x100);
    assert(b[2] == (x / 0x10000) % 0x100);
    assert(b[3] == x / 0x100_0000);
    assert(x % 0x100 + ((x / 0x100) % 0x100) * 0x100 + ((x / 0x10000) % 0x100) * 0x10000
        + (x / 0x100_0000) * 0x100_0000 == x) by (nonlinear_arith)
        requires 0 <= x < 0x1_0000_0000;
}

/// Reading a word at `off` only looks at the four bytes there.
pub proof fn lemma_le32_window(d: Seq<u8>, off: int, w: Seq<u8>)
    requires
        0 <= off,
        off + 4 <= d.len(),
        d.subrange(off, off + 4) == w,
    ensures
        spec_le32(d, off) == spec_le32(w, 0),
{
    assert(d[off] == w[0]);
    assert(d[off + 1] == w[1]);
    assert(d[off + 2] == w[2]);
    assert(d[off + 3] == w[3]);
}

/// A dump block read back by the programmer is accepted as a block for the
/// slot that programs exactly the dumped bytes at the address they were
/// dumped from, with the dump's block number and count.
pub proof fn lemma_dump_block_round_trip(index: u32, image_len: u32, slot: FlashSlot, page: Seq<u8>)
    requires
        slot.wf(),
        page.len() == spec_dump_payload(index, image_len),
        page.len() > 0,
        index * DUMP_PAYLOAD + page.len() <= slot.len,
    ensures
        ({
            let d = spec_dump_block(index, image_len, slot.addr() as u32, page);
            &&& spec_parse(d, slot) == Uf2Parse::Block {
                target: (slot.addr() + index * DUMP_PAYLOAD) as u32,
                payload: page.len() as u32,
                block_no: index,
                num_blocks: spec_dump_block_count(image_len),
            }
            &&& d.subrange(OFF_DATA as int, OFF_DATA + page.len()) == page
        }),
{
    let addr = (slot.addr() + index * DUMP_PAYLOAD) as u32;
    let d = spec_dump_block(index, image_len, slot.addr() as u32, page);
    let fields = seq![UF2_MAGIC_START0, UF2_MAGIC_START1, UF2_FLAG_FAMILY_PRESENT, addr,
        page.len() as u32, index, spec_dump_block_count(image_len), UF2_FAMILY_DELUGE];
    assert(d.len() == 512);
    assert forall|k: int| 0 <= k < 8 implies spec_le32(d, 4 * k) == fields[k] by {
        assert(d.subrange(4 * k, 4 * k + 4) =~= spec_le_bytes(fields[k]));
        lemma_le32_window(d, 4 * k, spec_le_bytes(fields[k]));
        lemma_le_bytes_round_trip(fields[k]);
    }
    assert(spec_le32(d, 0x00) == fields[0]);
    assert(spec_le32(d, 0x04) == fields[1]);
    assert(spec_le32(d, 0x08) == fields[2]);
    assert(spec_le32(d, 0x0C) == fields[3]);
    assert(spec_le32(d, 0x10) == fields[4]);
    assert(spec_le32(d, 0x14) == fields[5]);
    assert(spec_le32(d, 0x18) == fields[6]);
    assert(spec_le32(d, 0x1C) == fields[7]);
    assert(d.subrange(0x1FC, 0x200) =~= spec_le_bytes(UF2_MAGIC_END));
    lemma_le32_window(d, 0x1FC, spec_le_bytes(UF2_MAGIC_END));
    lemma_le_bytes_round_trip(UF2_MAGIC_END);
    assert(UF2_FLAG_FAMILY_PRESENT & UF2_FLAG_NOT_MAIN_FLASH == 0) by (bit_vector);
    assert(UF2_FLAG_FAMILY_PRESENT & UF2_FLAG_FAMILY_PRESENT != 0) by (bit_vector);
    assert(d.subrange(OFF_DATA as int, OFF_DATA + page.len()) =~= page);
}

} // verus!
