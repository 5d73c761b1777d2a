//! SPI multi-I/O bus controller (SPIBSC0) flash policy: the write guards that
//! keep every erase and program inside the board's writable windows and the
//! physically present chip, the chip size taken from the JEDEC ID, and the way
//! erases and programs are cut into sectors, pages and data units.
pub mod bus;
pub mod safety;

pub use bus::{read_id, read_status_reg, force_erase_range, force_program};


use vstd::prelude::*;

verus! {

/// Base of the cached memory-mapped read window: flash offset 0 maps here.
pub const SPI_FLASH_BASE: u32 = 0x1800_0000;

/// SMENR data width: 8 bits.
pub const SMENR_SPIDE_8: u32 = 0x8;
/// SMENR data width: 16 bits.
pub const SMENR_SPIDE_16: u32 = 0xC;
/// SMENR data width: 32 bits.
pub const SMENR_SPIDE_32: u32 = 0xF;
/// SMCR: start transfer.
pub const SMCR_SPIE: u32 = 0x1;
/// SMCR: write-data enable.
pub const SMCR_SPIWE: u32 = 0x2;
/// SMCR: read-data enable.
pub const SMCR_SPIRE: u32 = 0x4;
/// SMCR: keep SSL asserted after this transfer.
pub const SMCR_SSLKP: u32 = 0x100;

/// A flash-relative byte range `[start, end)`.
#[derive(Clone, Copy, Debug, PartialEq, Eq, Structural)]
pub struct Window {
    pub start: u32,
    pub end: u32,
}

/// Chip geometry and the board's writable regions.
pub struct FlashMap {
    /// Erase-block size in bytes (a power of two).
    pub sector_size: u32,
    /// Page-program size in bytes (a power of two).
    pub page: usize,
    /// The windows that erase and program may touch.
    pub writable: Vec<Window>,
}

/// `[offset, offset + len)` is non-empty and lies inside one of `windows`.
pub open spec fn spec_within_windows(offset: u32, len: u32, windows: Seq<Window>) -> bool {
    len != 0 && exists|k: int|
        0 <= k < windows.len() && offset >= (#[trigger] windows[k]).start && offset + len
            <= windows[k].end
}

/// `true` if `[offset, offset + len)` is non-empty and lies entirely within
/// one of `windows`.
pub fn within_windows(offset: u32, len: u32, windows: &[Window]) -> (ok: bool)
    ensures
        ok == spec_within_windows(offset, len, windows@),
{
    if len == 0 {
        return false;
    }
    let end = offset as u64 + len as u64;
    let mut k: usize = 0;
    while k < windows.len()
        invariant
            k <= windows@.len(),
            len != 0,
            end == offset + len,
            forall|j: int|
                0 <= j < k ==> !(offset >= (#[trigger] windows@[j]).start && offset + len
                    <= windows@[j].end),
        decreases windows@.len() - k,
    {
        let w = windows[k];
        if offset >= w.start && end <= w.end as u64 {
            assert(offset >= windows@[k as int].start && offset + len <= windows@[k as int].end);
            return true;
        }
        k += 1;
    }
    false
}

/// The usable flash size given by a JEDEC ID `[manufacturer, type,
/// density]`: `2^density` bytes when the manufacturer byte is neither 0x00
/// nor 0xFF (no response) and the density lies in 18..=26 (256 KB .. 64 MB);
/// otherwise 0, which refuses every write.
pub open spec fn spec_capacity_from_id(id: [u8; 3]) -> u32 {
    if id[0] == 0x00 || id[0] == 0xFF || !(18 <= id[2] <= 26) {
        0
    } else {
        (1u32 << id[2] as u32)
    }
}

/// The usable flash size given by a JEDEC ID (see [`spec_capacity_from_id`]).
pub fn capacity_from_id(id: [u8; 3]) -> (cap: u32)
    ensures
        cap == spec_capacity_from_id(id),
{
    let density = id[2];
    if id[0] == 0x00 || id[0] == 0xFF || !(18 <= density && density <= 26) {
        0
    } else {
        1u32 << density as u32
    }
}

/// `[offset, offset + len)` is non-empty and inside a chip of `cap` bytes
/// (`cap == 0`: size unknown, nothing is inside).
pub open spec fn spec_in_chip(offset: u32, len: u32, cap: u32) -> bool {
    len != 0 && cap != 0 && offset + len <= cap
}

/// `true` if `[offset, offset + len)` is non-empty and inside a chip of
/// `cap` bytes; an unknown capacity (0) refuses everything. This bound is what
/// stops an out-of-range offset from wrapping onto a low sector.
pub fn in_chip(offset: u32, len: u32, cap: u32) -> (ok: bool)
    ensures
        ok == spec_in_chip(offset, len, cap),
{
    if len == 0 {
        return false;
    }
    cap != 0 && (offset as u64 + len as u64) <= cap as u64
}

/// The guard of the normal write path: inside one of the writable windows
/// and inside the chip.
pub fn write_allowed(offset: u32, len: u32, windows: &[Window], cap: u32) -> (ok: bool)
    ensures
        ok == (spec_within_windows(offset, len, windows@) && spec_in_chip(offset, len, cap)),
{
    within_windows(offset, len, windows) && in_chip(offset, len, cap)
}

/// The guard of the forced (recovery) path: the window check is dropped,
/// the chip bound is kept.
pub fn guard(offset: u32, len: u32, windows: Option<&[Window]>, cap: u32) -> (ok: bool)
    ensures
        ok == match windows {
            Some(w) => spec_within_windows(offset, len, w@) && spec_in_chip(offset, len, cap),
            None => spec_in_chip(offset, len, cap),
        },
{
    match windows {
        Some(w) => write_allowed(offset, len, w, cap),
        None => in_chip(offset, len, cap),
    }
}

/// `offset` rounded down to its erase block (`sector_size` a power of two).
pub open spec fn spec_sector_floor(offset: u32, sector_size: u32) -> u32 {
    offset & !((sector_size - 1) as u32)
}

/// The block addresses `addr, addr + sector_size, ...` below `end`.
pub open spec fn spec_block_addrs(addr: int, end: int, sector_size: int) -> Seq<u32>
    decreases end - addr + sector_size,
    when sector_size > 0
{
    if addr >= end {
        Seq::empty()
    } else {
        seq![addr as u32] + spec_block_addrs(addr + sector_size, end, sector_size)
    }
}

/// Stepping from `addr` by `sector_size` while below `end` never passes the
/// 32-bit range.
pub open spec fn steps_fit(addr: int, end: int, sector_size: int) -> bool
    decreases end - addr + sector_size,
    when sector_size > 0
{
    addr >= end || (addr + sector_size <= u32::MAX && steps_fit(addr + sector_size, end, sector_size))
}

/// The erase blocks touched by `[offset, offset + len)`, in order: from the
/// block holding `offset` up to the one holding the last byte.
pub fn erase_plan(offset: u32, len: u32, sector_size: u32) -> (blocks: Vec<u32>)
    requires
        sector_size > 0,
        offset + len <= u32::MAX,
        steps_fit(spec_sector_floor(offset, sector_size) as int, offset + len, sector_size as int),
    ensures
        blocks@ == spec_block_addrs(
            spec_sector_floor(offset, sector_size) as int,
            offset + len,
            sector_size as int,
        ),
{
    let mut addr = offset & !(sector_size - 1);
    let end = offset + len;
    let mut blocks: Vec<u32> = Vec::new();
    let ghost first = addr;
    while addr < end
        invariant
            sector_size > 0,
            steps_fit(addr as int, end as int, sector_size as int),
            blocks@ + spec_block_addrs(addr as int, end as int, sector_size as int)
                == spec_block_addrs(first as int, end as int, sector_size as int),
        decreases end - addr + sector_size,
    {
        blocks.push(addr);
        let ghost old_addr = addr;
        addr = addr + sector_size;
        proof {
            assert(spec_block_addrs(old_addr as int, end as int, sector_size as int) == seq![
                old_addr,
            ] + spec_block_addrs(addr as int, end as int, sector_size as int));
            assert(blocks@ + spec_block_addrs(addr as int, end as int, sector_size as int)
                =~= blocks@.drop_last() + spec_block_addrs(
                old_addr as int,
                end as int,
                sector_size as int,
            ));
        }
    }
    assert(blocks@ =~= blocks@ + spec_block_addrs(addr as int, end as int, sector_size as int));
    blocks
}

/// A page-bounded piece of a program: `len` bytes of the buffer from
/// `start`, written at flash offset `addr`.
#[derive(Clone, Copy, Debug, PartialEq, Eq, Structural)]
pub struct Chunk {
    pub addr: u32,
    pub start: usize,
    pub len: usize,
}

/// Room left in the page holding `addr` (`page` a power of two).
pub open spec fn spec_page_room(addr: u32, page: usize) -> int {
    page - (addr as usize & (page - 1) as usize)
}

/// The pieces of programming `rest` bytes (buffer position `start`) at
/// `addr`: each runs to the end of its page or of the data.
pub open spec fn spec_chunks(addr: u32, start: int, rest: int, page: usize) -> Seq<Chunk>
    decreases rest,
    when page > 0 && spec_page_room(addr, page) >= 1
{
    if rest <= 0 {
        Seq::empty()
    } else {
        let room = spec_page_room(addr, page);
        let n = if room < rest { room } else { rest };
        seq![Chunk { addr, start: start as usize, len: n as usize }] + spec_chunks(
            (addr + n) as u32,
            start + n,
            rest - n,
            page,
        )
    }
}

proof fn lemma_page_room(addr: u32, page: usize)
    requires
        page > 0,
    ensures
        1 <= spec_page_room(addr, page) <= page,
{
    let x = addr as usize;
    let m = (page - 1) as usize;
    assert(x & m <= m) by (bit_vector);
}

/// Every piece of [`spec_chunks`] lies inside the bytes it splits.
pub proof fn lemma_chunks_in_range(addr: u32, start: int, rest: int, page: usize)
    requires
        page > 0,
        0 <= start,
        start + rest <= usize::MAX,
    ensures
        forall|k: int|
            0 <= k < spec_chunks(addr, start, rest, page).len() ==> start <= (
            #[trigger] spec_chunks(addr, start, rest, page)[k]).start && spec_chunks(
                addr,
                start,
                rest,
                page,
            )[k].start + spec_chunks(addr, start, rest, page)[k].len <= start + rest,
    decreases rest,
{
    lemma_page_room(addr, page);
    if rest > 0 {
        let room = spec_page_room(addr, page);
        let n = if room < rest { room } else { rest };
        let next = (addr + n) as u32;
        lemma_page_room(next, page);
        lemma_chunks_in_range(next, start + n, rest - n, page);
        let all = spec_chunks(addr, start, rest, page);
        let tail = spec_chunks(next, start + n, rest - n, page);
        assert(all == seq![Chunk { addr, start: start as usize, len: n as usize }] + tail);
        assert forall|k: int| 0 <= k < all.len() implies start <= (#[trigger] all[k]).start
            && all[k].start + all[k].len <= start + rest by {
            if k > 0 {
                assert(all[k] == tail[k - 1]);
            }
        }
    }
}

/// Split a program of `len` bytes at `offset` into page-bounded pieces, in
/// order; none crosses a page boundary.
pub fn program_plan(offset: u32, len: usize, page: usize) -> (chunks: Vec<Chunk>)
    requires
        page > 0,
        offset + len <= u32::MAX,
    ensures
        chunks@ == spec_chunks(offset, 0, len as int, page),
{
    let mut addr = offset;
    let mut start: usize = 0;
    let mut chunks: Vec<Chunk> = Vec::new();
    proof {
        lemma_page_room(addr, page);
    }
    while start < len
        invariant
            page > 0,
            start <= len,
            addr == offset + start,
            offset + len <= u32::MAX,
            chunks@ + spec_chunks(addr, start as int, len - start, page) == spec_chunks(
                offset,
                0,
                len as int,
                page,
            ),
        decreases len - start,
    {
        proof {
            lemma_page_room(addr, page);
        }
        let page_room = page - (addr as usize & (page - 1));
        let rest = len - start;
        let chunk = if page_room < rest { page_room } else { rest };
        let ghost prev = chunks@;
        let ghost old_addr = addr;
        let ghost old_start = start;
        chunks.push(Chunk { addr, start, len: chunk });
        addr = addr + chunk as u32;
        start = start + chunk;
        proof {
            lemma_page_room(addr, page);
            assert(spec_chunks(old_addr, old_start as int, len - old_start, page) == seq![
                Chunk { addr: old_addr, start: old_start, len: chunk },
            ] + spec_chunks(addr, start as int, len - start, page));
            assert(chunks@ + spec_chunks(addr, start as int, len - start, page) =~= prev
                + spec_chunks(old_addr, old_start as int, len - old_start, page));
        }
    }
    proof {
        lemma_page_room(addr, page);
    }
    assert(chunks@ =~= chunks@ + spec_chunks(addr, start as int, len - start, page));
    chunks
}

/// One data transfer of a page program: the SMENR data width, the SMWDR0
/// word, and the SMCR value.
#[derive(Clone, Copy, Debug, PartialEq, Eq, Structural)]
pub struct DataUnit {
    pub spide: u32,
    pub val: u32,
    pub smcr: u32,
}

/// The data transfers for `data[i..]`: 4 bytes at a time while at least 4
/// remain (the little-endian word as is), then 2 (their little-endian value in
/// bits 31:16), then 1 (in bits 31:24). Every transfer but the last keeps
/// the chip select asserted.
pub open spec fn spec_units(data: Seq<u8>, i: int) -> Seq<DataUnit>
    decreases data.len() - i,
{
    if i >= data.len() || i < 0 {
        Seq::empty()
    } else {
        let rem = data.len() - i;
        let unit: int = if rem >= 4 { 4 } else if rem >= 2 { 2 } else { 1 };
        let (spide, val) = if rem >= 4 {
            (
                SMENR_SPIDE_32,
                (data[i] as u32 | (data[i + 1] as u32) << 8u32 | (data[i + 2] as u32) << 16u32
                    | (data[i + 3] as u32) << 24u32),
            )
        } else if rem >= 2 {
            (SMENR_SPIDE_16, ((data[i] as u32 | (data[i + 1] as u32) << 8u32) << 16u32))
        } else {
            (SMENR_SPIDE_8, (data[i] as u32) << 24u32)
        };
        let last = i + unit >= data.len();
        let smcr = if last { SMCR_SPIE | SMCR_SPIWE } else { SMCR_SPIE | SMCR_SPIWE | SMCR_SSLKP };
        seq![DataUnit { spide, val, smcr }] + spec_units(data, i + unit)
    }
}

/// The data transfers of programming `data` (see [`spec_units`]).
pub fn page_units(data: &[u8]) -> (units: Vec<DataUnit>)
    ensures
        units@ == spec_units(data@, 0),
{
    let n = data.len();
    let mut i: usize = 0;
    let mut units: Vec<DataUnit> = Vec::new();
    while i < n
        invariant
            n == data@.len(),
            i <= n,
            units@ + spec_units(data@, i as int) == spec_units(data@, 0),
        decreases n - i,
    {
        let rem = n - i;
        let (unit, spide, val): (usize, u32, u32) = if rem >= 4 {
            (
                4,
                SMENR_SPIDE_32,
                data[i] as u32 | (data[i + 1] as u32) << 8u32 | (data[i + 2] as u32) << 16u32
                    | (data[i + 3] as u32) << 24u32,
            )
        } else if rem >= 2 {
            (2, SMENR_SPIDE_16, (data[i] as u32 | (data[i + 1] as u32) << 8u32) << 16u32)
        } else {
            (1, SMENR_SPIDE_8, (data[i] as u32) << 24u32)
        };
        let last = i + unit >= n;
        let mut smcr = SMCR_SPIE | SMCR_SPIWE;
        if !last {
            smcr = smcr | SMCR_SSLKP;
        }
        let ghost prev = units@;
        let ghost old_i = i;
        units.push(DataUnit { spide, val, smcr });
        i = i + unit;
        proof {
            assert(spec_units(data@, old_i as int) == seq![DataUnit { spide, val, smcr }]
                + spec_units(data@, i as int));
            assert(units@ + spec_units(data@, i as int) =~= prev + spec_units(data@, old_i as int));
        }
    }
    assert(units@ =~= units@ + spec_units(data@, i as int));
    units
}

} // verus!
