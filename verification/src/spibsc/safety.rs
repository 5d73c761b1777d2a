//! What reaches the flash chip: every sector-erase and page-program command
//! that a write run issues carries an address that the write guard allowed,
//! inside a writable window on the normal path and inside the chip on every
//! path, so a caller's mistake never erases or programs a protected region
//! or wraps onto a low sector.
use crate::mmio::shadow::Access;
use crate::mmio::{wr, rd};
use crate::spibsc::{Window, Chunk};
use crate::spibsc::bus::{
    SMCMR, SMADR, CMD_SECTOR_ERASE, CMD_PP, CMD_WREN, CMD_RDSR, CMD_RDID, CMD_CLEAR_STATUS,
    CMNSR, spec_polls, spec_tend_ops, spec_stop_ops, spec_to_manual_ops, spec_to_read_mode_ops,
    spec_cmd_ops, spec_cmd_read_ops, spec_repeat, spec_wip, spec_read_status_ops,
    spec_finish_ops, spec_clear_status_ops, spec_write_enable_ops, spec_guard, spec_erase_at_ops,
    spec_unit_ops, spec_units_ops, spec_program_at_ops, spec_erase_blocks_ops, spec_chunks_ops,
    chunk_bytes, spec_window_ops, spec_manual_regs, spec_cap_ops,
    spec_cap_regs, spec_run_ops, run_cap, reg, SMRDR0, CMNCR, DRCR,
};
use vstd::prelude::*;

verus! {

/// `a` is the sector-erase or the page-program command.
pub open spec fn is_write_command(a: Access) -> bool {
    a == wr(SMCMR, CMD_SECTOR_ERASE << 16u32) || a == wr(SMCMR, CMD_PP << 16u32)
}

/// `a` writes the manual address register with an offset inside a chip of
/// `cap` bytes and, when windows are given, inside one of them.
pub open spec fn address_allowed(a: Access, windows: Option<Seq<Window>>, cap: u32) -> bool {
    &&& a.write
    &&& a.width == 4
    &&& a.addr == SMADR
    &&& a.val < cap
    &&& match windows {
        Some(w) => exists|k: int| 0 <= k < w.len() && (#[trigger] w[k]).start <= a.val < w[k].end,
        None => true,
    }
}

/// Every erase or program command in `ops` is followed directly by an
/// allowed address write.
pub open spec fn commands_guarded(ops: Seq<Access>, windows: Option<Seq<Window>>, cap: u32) -> bool {
    forall|i: int|
        0 <= i < ops.len() && is_write_command(#[trigger] ops[i]) ==> i + 1 < ops.len()
            && address_allowed(ops[i + 1], windows, cap)
}

/// No access of `ops` is an erase or program command.
pub open spec fn no_write_command(ops: Seq<Access>) -> bool {
    forall|i: int| 0 <= i < ops.len() ==> !is_write_command(#[trigger] ops[i])
}

proof fn lemma_command_words()
    by (bit_vector)
    ensures
        CMD_SECTOR_ERASE << 16u32 == 0xD8_0000u32,
        CMD_PP << 16u32 == 0x2_0000u32,
        CMD_WREN << 16u32 == 0x6_0000u32,
        CMD_RDSR << 16u32 == 0x5_0000u32,
        CMD_RDID << 16u32 == 0x9F_0000u32,
        CMD_CLEAR_STATUS << 16u32 == 0x30_0000u32,
{
}

proof fn lemma_plain_guarded(ops: Seq<Access>, windows: Option<Seq<Window>>, cap: u32)
    requires
        no_write_command(ops),
    ensures
        commands_guarded(ops, windows, cap),
{
}

proof fn lemma_plain_concat(a: Seq<Access>, b: Seq<Access>)
    requires
        no_write_command(a),
        no_write_command(b),
    ensures
        no_write_command(a + b),
{
    assert forall|i: int| 0 <= i < (a + b).len() implies !is_write_command(#[trigger] (a + b)[i]) by {
        if i < a.len() {
            assert((a + b)[i] == a[i]);
        } else {
            assert((a + b)[i] == b[i - a.len()]);
        }
    }
}

proof fn lemma_guarded_concat(
    a: Seq<Access>,
    b: Seq<Access>,
    windows: Option<Seq<Window>>,
    cap: u32,
)
    requires
        commands_guarded(a, windows, cap),
        commands_guarded(b, windows, cap),
    ensures
        commands_guarded(a + b, windows, cap),
{
    let ab = a + b;
    assert forall|i: int| 0 <= i < ab.len() && is_write_command(#[trigger] ab[i]) implies i + 1
        < ab.len() && address_allowed(ab[i + 1], windows, cap) by {
        if i < a.len() {
            assert(ab[i] == a[i]);
            assert(ab[i + 1] == a[i + 1]);
        } else {
            assert(ab[i] == b[i - a.len()]);
            assert(ab[i + 1] == b[i + 1 - a.len()]);
        }
    }
}

proof fn lemma_polls_plain(a: usize, v: u32, n: nat)
    ensures
        no_write_command(spec_polls(a, v, n)),
{
    let p = spec_polls(a, v, n);
    assert forall|i: int| 0 <= i < p.len() implies !is_write_command(#[trigger] p[i]) by {
        assert(p[i] == rd(a, v));
    }
}

proof fn lemma_tend_plain(t: u32)
    ensures
        no_write_command(spec_tend_ops(t)),
{
    lemma_polls_plain(CMNSR, t, 1);
    lemma_polls_plain(CMNSR, t, crate::spibsc::bus::TEND_TIMEOUT as nat + 1);
    assert(seq![rd(CMNSR, t)] =~= spec_polls(CMNSR, t, 1));
}

proof fn lemma_stop_plain(d: u32, t: u32)
    ensures
        no_write_command(spec_stop_ops(d, t)),
{
    lemma_polls_plain(CMNSR, t, 1);
    lemma_polls_plain(CMNSR, t, crate::spibsc::bus::TEND_TIMEOUT as nat + 1);
    assert(seq![rd(CMNSR, t)] =~= spec_polls(CMNSR, t, 1));
    let head = seq![rd(DRCR, d), wr(DRCR, d | crate::spibsc::bus::DRCR_SSLN)];
    assert(no_write_command(head));
    let tail = if t & crate::spibsc::bus::CMNSR_SSLF == 0 {
        seq![rd(CMNSR, t)]
    } else {
        spec_polls(CMNSR, t, crate::spibsc::bus::TEND_TIMEOUT as nat + 1)
    };
    lemma_plain_concat(head, tail);
}

proof fn lemma_to_manual_plain(c: u32, d: u32, t: u32)
    ensures
        no_write_command(spec_to_manual_ops(c, d, t)),
{
    lemma_stop_plain(d, t);
    let a = seq![rd(CMNCR, c)];
    let b = seq![rd(CMNCR, c), wr(CMNCR, c | crate::spibsc::bus::CMNCR_MD)];
    assert(no_write_command(a));
    assert(no_write_command(b));
    lemma_plain_concat(a, spec_stop_ops(d, t));
    lemma_plain_concat(a + spec_stop_ops(d, t), b);
}

proof fn lemma_to_read_mode_plain(c: u32, d: u32, t: u32)
    ensures
        no_write_command(spec_to_read_mode_ops(c, d, t)),
{
    lemma_stop_plain(d, t);
    let md = crate::spibsc::bus::CMNCR_MD;
    let d2 = if c & md != 0 { d | crate::spibsc::bus::DRCR_SSLN } else { d };
    let a = seq![rd(CMNCR, c)];
    let b = seq![rd(CMNCR, c), wr(CMNCR, c & !md)];
    let e = seq![rd(DRCR, d2), wr(DRCR, d2 | crate::spibsc::bus::DRCR_RCF), rd(DRCR, d2 | crate::spibsc::bus::DRCR_RCF)];
    assert(no_write_command(a));
    assert(no_write_command(b));
    assert(no_write_command(e));
    lemma_plain_concat(a, spec_stop_ops(d, t));
    lemma_plain_concat(a + spec_stop_ops(d, t), b);
    let first = if c & md != 0 { a + spec_stop_ops(d, t) + b } else { a };
    lemma_plain_concat(first, e);
}

proof fn lemma_cmd_plain(cmd: u32, addr: u32, enr: u32, smcr: u32, t: u32)
    requires
        cmd << 16u32 != CMD_SECTOR_ERASE << 16u32,
        cmd << 16u32 != CMD_PP << 16u32,
    ensures
        no_write_command(spec_cmd_ops(cmd, addr, enr, smcr, t)),
{
    let head = seq![
        wr(SMCMR, cmd << 16u32),
        wr(SMADR, addr),
        wr(crate::spibsc::bus::SMENR, enr),
        wr(crate::spibsc::bus::SMCR, smcr),
    ];
    assert(no_write_command(head));
    lemma_tend_plain(t);
    lemma_plain_concat(head, spec_tend_ops(t));
}

proof fn lemma_cmd_read_plain(cmd: u32, enr: u32, t: u32, rdata: u32)
    requires
        cmd << 16u32 != CMD_SECTOR_ERASE << 16u32,
        cmd << 16u32 != CMD_PP << 16u32,
    ensures
        no_write_command(spec_cmd_read_ops(cmd, enr, t, rdata)),
{
    let head = seq![
        wr(SMCMR, cmd << 16u32),
        wr(SMADR, 0),
        wr(crate::spibsc::bus::SMENR, enr),
        wr(crate::spibsc::bus::SMWDR0, 0),
        wr(crate::spibsc::bus::SMCR, crate::spibsc::SMCR_SPIE | crate::spibsc::SMCR_SPIRE),
    ];
    assert(no_write_command(head));
    lemma_tend_plain(t);
    lemma_plain_concat(head, spec_tend_ops(t));
    assert(no_write_command(seq![rd(SMRDR0, rdata)]));
    lemma_plain_concat(head + spec_tend_ops(t), seq![rd(SMRDR0, rdata)]);
}

proof fn lemma_repeat_plain(o: Seq<Access>, n: nat)
    requires
        no_write_command(o),
    ensures
        no_write_command(spec_repeat(o, n)),
    decreases n,
{
    if n > 0 {
        lemma_repeat_plain(o, (n - 1) as nat);
        lemma_plain_concat(spec_repeat(o, (n - 1) as nat), o);
    }
}

proof fn lemma_finish_plain(t: u32, rdata: u32)
    ensures
        no_write_command(spec_finish_ops(t, rdata)),
{
    lemma_command_words();
    lemma_cmd_read_plain(CMD_RDSR, crate::spibsc::bus::SMENR_CDE | crate::spibsc::SMENR_SPIDE_8, t, rdata);
    let o = spec_read_status_ops(t, rdata);
    lemma_repeat_plain(o, crate::spibsc::bus::WIP_TIMEOUT as nat + 1);
    let (w, ok) = spec_wip(t, rdata);
    assert(no_write_command(w));
    lemma_cmd_plain(CMD_CLEAR_STATUS, 0, crate::spibsc::bus::SMENR_CDE, crate::spibsc::SMCR_SPIE, t);
    assert(no_write_command(Seq::<Access>::empty()));
    let tail = if ok { Seq::empty() } else { spec_clear_status_ops(t) };
    lemma_plain_concat(w, tail);
}

proof fn lemma_units_plain(units: Seq<crate::spibsc::DataUnit>, t: u32)
    ensures
        no_write_command(spec_units_ops(units, t)),
    decreases units.len(),
{
    lemma_command_words();
    if units.len() > 0 {
        lemma_units_plain(units.drop_last(), t);
        let u = units.last();
        let head = seq![
            wr(SMCMR, 0),
            wr(crate::spibsc::bus::SMWDR0, u.val),
            wr(crate::spibsc::bus::SMENR, u.spide),
            wr(crate::spibsc::bus::SMCR, u.smcr),
        ];
        assert(no_write_command(head));
        lemma_tend_plain(t);
        lemma_plain_concat(head, spec_tend_ops(t));
        lemma_plain_concat(spec_units_ops(units.drop_last(), t), spec_unit_ops(u, t));
    }
}

/// An offset that passed the guard for a non-empty range is an allowed
/// address.
proof fn lemma_guard_allows(offset: u32, len: u32, windows: Option<Seq<Window>>, cap: u32)
    requires
        spec_guard(offset, len, windows, cap),
    ensures
        address_allowed(wr(SMADR, offset), windows, cap),
{
    match windows {
        Some(w) => {
            let k = choose|k: int|
                0 <= k < w.len() && offset >= (#[trigger] w[k]).start && offset + len <= w[k].end;
            assert(w[k].start <= offset < w[k].end);
        },
        None => {},
    }
}

/// A write command whose address passed the guard is guarded.
proof fn lemma_write_cmd_guarded(
    cmd: u32,
    offset: u32,
    len: u32,
    enr: u32,
    smcr: u32,
    t: u32,
    windows: Option<Seq<Window>>,
    cap: u32,
)
    requires
        spec_guard(offset, len, windows, cap),
    ensures
        commands_guarded(spec_cmd_ops(cmd, offset, enr, smcr, t), windows, cap),
{
    lemma_guard_allows(offset, len, windows, cap);
    let head = seq![
        wr(SMCMR, cmd << 16u32),
        wr(SMADR, offset),
        wr(crate::spibsc::bus::SMENR, enr),
        wr(crate::spibsc::bus::SMCR, smcr),
    ];
    assert(commands_guarded(head, windows, cap)) by {
        assert forall|i: int| 0 <= i < head.len() && is_write_command(#[trigger] head[i]) implies i
            + 1 < head.len() && address_allowed(head[i + 1], windows, cap) by {
            if i == 0 {
                assert(head[1] == wr(SMADR, offset));
            }
        }
    }
    lemma_tend_plain(t);
    lemma_guarded_concat(head, spec_tend_ops(t), windows, cap);
}

proof fn lemma_erase_at_guarded(
    offset: u32,
    sector_size: u32,
    windows: Option<Seq<Window>>,
    cap: u32,
    t: u32,
    rdata: u32,
)
    ensures
        commands_guarded(spec_erase_at_ops(offset, sector_size, windows, cap, t, rdata), windows, cap),
{
    lemma_command_words();
    if spec_guard(offset, sector_size, windows, cap) {
        let we = spec_write_enable_ops(t);
        let er = spec_cmd_ops(
            CMD_SECTOR_ERASE,
            offset,
            crate::spibsc::bus::SMENR_CDE | crate::spibsc::bus::SMENR_ADE_3B,
            crate::spibsc::SMCR_SPIE,
            t,
        );
        lemma_cmd_plain(CMD_WREN, 0, crate::spibsc::bus::SMENR_CDE, crate::spibsc::SMCR_SPIE, t);
        lemma_plain_guarded(we, windows, cap);
        lemma_write_cmd_guarded(
            CMD_SECTOR_ERASE,
            offset,
            sector_size,
            crate::spibsc::bus::SMENR_CDE | crate::spibsc::bus::SMENR_ADE_3B,
            crate::spibsc::SMCR_SPIE,
            t,
            windows,
            cap,
        );
        lemma_finish_plain(t, rdata);
        lemma_plain_guarded(spec_finish_ops(t, rdata), windows, cap);
        lemma_guarded_concat(we, er, windows, cap);
        lemma_guarded_concat(we + er, spec_finish_ops(t, rdata), windows, cap);
    }
}

proof fn lemma_program_at_guarded(
    offset: u32,
    data: Seq<u8>,
    windows: Option<Seq<Window>>,
    cap: u32,
    t: u32,
    rdata: u32,
)
    ensures
        commands_guarded(spec_program_at_ops(offset, data, windows, cap, t, rdata), windows, cap),
{
    lemma_command_words();
    if data.len() != 0 && spec_guard(offset, data.len() as u32, windows, cap) {
        let we = spec_write_enable_ops(t);
        let pp = spec_cmd_ops(
            CMD_PP,
            offset,
            crate::spibsc::bus::SMENR_CDE | crate::spibsc::bus::SMENR_ADE_3B,
            crate::spibsc::SMCR_SPIE | crate::spibsc::SMCR_SSLKP,
            t,
        );
        let units = spec_units_ops(crate::spibsc::spec_units(data, 0), t);
        lemma_cmd_plain(CMD_WREN, 0, crate::spibsc::bus::SMENR_CDE, crate::spibsc::SMCR_SPIE, t);
        lemma_plain_guarded(we, windows, cap);
        lemma_write_cmd_guarded(
            CMD_PP,
            offset,
            data.len() as u32,
            crate::spibsc::bus::SMENR_CDE | crate::spibsc::bus::SMENR_ADE_3B,
            crate::spibsc::SMCR_SPIE | crate::spibsc::SMCR_SSLKP,
            t,
            windows,
            cap,
        );
        lemma_units_plain(crate::spibsc::spec_units(data, 0), t);
        lemma_plain_guarded(units, windows, cap);
        lemma_finish_plain(t, rdata);
        lemma_plain_guarded(spec_finish_ops(t, rdata), windows, cap);
        lemma_guarded_concat(we, pp, windows, cap);
        lemma_guarded_concat(we + pp, units, windows, cap);
        lemma_guarded_concat(we + pp + units, spec_finish_ops(t, rdata), windows, cap);
    }
}

proof fn lemma_erase_blocks_guarded(
    blocks: Seq<u32>,
    sector_size: u32,
    windows: Option<Seq<Window>>,
    cap: u32,
    t: u32,
    rdata: u32,
)
    ensures
        commands_guarded(
            spec_erase_blocks_ops(blocks, sector_size, windows, cap, t, rdata),
            windows,
            cap,
        ),
    decreases blocks.len(),
{
    if blocks.len() > 0 {
        lemma_erase_blocks_guarded(blocks.drop_last(), sector_size, windows, cap, t, rdata);
        lemma_erase_at_guarded(blocks.last(), sector_size, windows, cap, t, rdata);
        lemma_guarded_concat(
            spec_erase_blocks_ops(blocks.drop_last(), sector_size, windows, cap, t, rdata),
            spec_erase_at_ops(blocks.last(), sector_size, windows, cap, t, rdata),
            windows,
            cap,
        );
    }
}

proof fn lemma_chunks_guarded(
    chunks: Seq<Chunk>,
    data: Seq<u8>,
    windows: Option<Seq<Window>>,
    cap: u32,
    t: u32,
    rdata: u32,
)
    ensures
        commands_guarded(spec_chunks_ops(chunks, data, windows, cap, t, rdata), windows, cap),
    decreases chunks.len(),
{
    if chunks.len() > 0 {
        lemma_chunks_guarded(chunks.drop_last(), data, windows, cap, t, rdata);
        let c = chunks.last();
        lemma_program_at_guarded(c.addr, chunk_bytes(data, c), windows, cap, t, rdata);
        lemma_guarded_concat(
            spec_chunks_ops(chunks.drop_last(), data, windows, cap, t, rdata),
            spec_program_at_ops(c.addr, chunk_bytes(data, c), windows, cap, t, rdata),
            windows,
            cap,
        );
    }
}

/// A whole write run is guarded when the work inside its manual-mode
/// window is.
proof fn lemma_run_guarded(
    cache: u32,
    m: Map<usize, u8>,
    middle: Seq<Access>,
    windows: Option<Seq<Window>>,
    cap: u32,
)
    requires
        commands_guarded(middle, windows, cap),
    ensures
        commands_guarded(spec_run_ops(cache, m, middle), windows, cap),
{
    lemma_command_words();
    let c = reg(m, CMNCR);
    let d = reg(m, DRCR);
    let t = reg(m, CMNSR);
    let (c1, d1) = spec_cap_regs(cache, c, d);
    let (c2, d2) = spec_manual_regs(c1, d1);
    lemma_to_manual_plain(c1, d1, t);
    lemma_to_read_mode_plain(c2, d2, t);
    lemma_to_manual_plain(c, d, t);
    let (c3, d3) = spec_manual_regs(c, d);
    lemma_to_read_mode_plain(c3, d3, t);
    lemma_cmd_read_plain(
        CMD_RDID,
        crate::spibsc::bus::SMENR_CDE | crate::spibsc::SMENR_SPIDE_32,
        t,
        reg(m, SMRDR0),
    );
    let id_mid = spec_cmd_read_ops(
        CMD_RDID,
        crate::spibsc::bus::SMENR_CDE | crate::spibsc::SMENR_SPIDE_32,
        t,
        reg(m, SMRDR0),
    );
    lemma_plain_concat(spec_to_manual_ops(c, d, t), id_mid);
    lemma_plain_concat(spec_to_manual_ops(c, d, t) + id_mid, spec_to_read_mode_ops(c3, d3, t));
    assert(no_write_command(Seq::<Access>::empty()));
    let cap_ops = spec_cap_ops(cache, c, d, t, reg(m, SMRDR0));
    assert(no_write_command(cap_ops));
    lemma_plain_guarded(cap_ops, windows, cap);
    lemma_plain_guarded(spec_to_manual_ops(c1, d1, t), windows, cap);
    lemma_plain_guarded(spec_to_read_mode_ops(c2, d2, t), windows, cap);
    lemma_guarded_concat(spec_to_manual_ops(c1, d1, t), middle, windows, cap);
    lemma_guarded_concat(
        spec_to_manual_ops(c1, d1, t) + middle,
        spec_to_read_mode_ops(c2, d2, t),
        windows,
        cap,
    );
    lemma_guarded_concat(cap_ops, spec_window_ops(c1, d1, t, middle), windows, cap);
}

/// No erase command of an erase run reaches the chip with an address outside
/// the chip's reported size, nor, on the normal path (`Some` windows),
/// outside the board's writable windows: covers [`FlashMap::erase_sector`],
/// [`FlashMap::erase_range`] and [`force_erase_range`].
///
/// [`FlashMap::erase_sector`]: crate::spibsc::FlashMap::erase_sector
/// [`FlashMap::erase_range`]: crate::spibsc::FlashMap::erase_range
/// [`force_erase_range`]: crate::spibsc::force_erase_range
pub proof fn lemma_erase_run_guarded(
    cache: u32,
    m: Map<usize, u8>,
    blocks: Seq<u32>,
    sector_size: u32,
    windows: Option<Seq<Window>>,
)
    ensures
        commands_guarded(
            spec_run_ops(
                cache,
                m,
                spec_erase_blocks_ops(
                    blocks,
                    sector_size,
                    windows,
                    run_cap(cache, m),
                    reg(m, CMNSR),
                    reg(m, SMRDR0),
                ),
            ),
            windows,
            run_cap(cache, m),
        ),
{
    let cap = run_cap(cache, m);
    lemma_erase_blocks_guarded(blocks, sector_size, windows, cap, reg(m, CMNSR), reg(m, SMRDR0));
    lemma_run_guarded(
        cache,
        m,
        spec_erase_blocks_ops(blocks, sector_size, windows, cap, reg(m, CMNSR), reg(m, SMRDR0)),
        windows,
        cap,
    );
}

/// The same for a program run: no page-program command reaches the chip
/// with an address outside the chip, nor, on the normal path, outside the
/// writable windows; covers [`FlashMap::program`] and [`force_program`].
///
/// [`FlashMap::program`]: crate::spibsc::FlashMap::program
/// [`force_program`]: crate::spibsc::force_program
pub proof fn lemma_program_run_guarded(
    cache: u32,
    m: Map<usize, u8>,
    chunks: Seq<Chunk>,
    data: Seq<u8>,
    windows: Option<Seq<Window>>,
)
    ensures
        commands_guarded(
            spec_run_ops(
                cache,
                m,
                spec_chunks_ops(
                    chunks,
                    data,
                    windows,
                    run_cap(cache, m),
                    reg(m, CMNSR),
                    reg(m, SMRDR0),
                ),
            ),
            windows,
            run_cap(cache, m),
        ),
{
    let cap = run_cap(cache, m);
    lemma_chunks_guarded(chunks, data, windows, cap, reg(m, CMNSR), reg(m, SMRDR0));
    lemma_run_guarded(
        cache,
        m,
        spec_chunks_ops(chunks, data, windows, cap, reg(m, CMNSR), reg(m, SMRDR0)),
        windows,
        cap,
    );
}

/// A single-page program run (see [`FlashMap::program_page`]) is guarded
/// the same way.
///
/// [`FlashMap::program_page`]: crate::spibsc::FlashMap::program_page
pub proof fn lemma_page_run_guarded(
    cache: u32,
    m: Map<usize, u8>,
    offset: u32,
    data: Seq<u8>,
    windows: Option<Seq<Window>>,
)
    ensures
        commands_guarded(
            spec_run_ops(
                cache,
                m,
                spec_program_at_ops(
                    offset,
                    data,
                    windows,
                    run_cap(cache, m),
                    reg(m, CMNSR),
                    reg(m, SMRDR0),
                ),
            ),
            windows,
            run_cap(cache, m),
        ),
{
    let cap = run_cap(cache, m);
    lemma_program_at_guarded(offset, data, windows, cap, reg(m, CMNSR), reg(m, SMRDR0));
    lemma_run_guarded(
        cache,
        m,
        spec_program_at_ops(offset, data, windows, cap, reg(m, CMNSR), reg(m, SMRDR0)),
        windows,
        cap,
    );
}

} // verus!
