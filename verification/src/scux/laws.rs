//! Laws across SCUX calls: starting a path and stopping it again leaves the
//! DMA request enables (CIM DMACR) as they were.
use crate::mmio::shadow::{Shadow, Access, spec_read, spec_store, lemma_read_after_store};
use crate::mmio::{performed, untouched, spec_replay, wr, rd, lemma_replay_append, lemma_replay_keeps_others};
use crate::scux::regs::{
    cim_at, ffd_at, src_at, srcirr_at, mix_at, DMACR_CIM_OFF, FFDIR_OFF, FFDBR_OFF, FFDBR_BOOT,
    SRCIR_OFF, MIXIR_OFF, IPC_BASE, IPC_STRIDE, IPCIR_OFF, OPC_BASE, OPC_STRIDE, OPCIR_OFF, FFU_BASE,
    FFU_STRIDE, FFUIR_OFF, FFD_BASE, FFD_STRIDE, DVU_BASE, DVU_STRIDE, DVUIR_OFF, INIT_SET, INIT_CLR,
};
use crate::scux::{
    ScuxDma, spec_start_path_ops, spec_stop_path_ops, spec_dmacr_bits, spec_masked_writes,
    spec_dma_start_ops, spec_ffd_boot_ops, spec_src_init_ops, spec_hold_ops, spec_release_ops,
    spec_release_fifo_ops, spec_release_path_ops, has,
};
use crate::dmac;
use vstd::prelude::*;

verus! {

/// Every write of `ops` ends at or below address `lim`.
pub open spec fn writes_below(ops: Seq<Access>, lim: int) -> bool {
    forall|i: int|
        0 <= i < ops.len() && (#[trigger] ops[i]).write ==> ops[i].addr + ops[i].width <= lim
}

proof fn lemma_below_concat(a: Seq<Access>, b: Seq<Access>, lim: int)
    requires
        writes_below(a, lim),
        writes_below(b, lim),
    ensures
        writes_below(a + b, lim),
{
    assert forall|i: int| 0 <= i < (a + b).len() && (#[trigger] (a + b)[i]).write implies (a
        + b)[i].addr + (a + b)[i].width <= lim by {
        if i < a.len() {
            assert((a + b)[i] == a[i]);
        } else {
            assert((a + b)[i] == b[i - a.len()]);
        }
    }
}

proof fn lemma_below_push(a: Seq<Access>, x: Access, lim: int)
    requires
        writes_below(a, lim),
        x.write ==> x.addr + x.width <= lim,
    ensures
        writes_below(a.push(x), lim),
{
    assert forall|i: int| 0 <= i < a.push(x).len() && (#[trigger] a.push(x)[i]).write implies a.push(
        x,
    )[i].addr + a.push(x)[i].width <= lim by {
        if i < a.len() {
            assert(a.push(x)[i] == a[i]);
        }
    }
}

proof fn lemma_masked_below(mask: u8, base: usize, stride: usize, off: usize, val: u32, n: int, lim: int)
    requires
        0 <= n <= 4,
        base + 3 * stride + off + 4 <= lim,
        lim <= usize::MAX,
    ensures
        writes_below(spec_masked_writes(mask, base, stride, off, val, n), lim),
    decreases n,
{
    if n > 0 {
        lemma_masked_below(mask, base, stride, off, val, n - 1, lim);
        assert((n - 1) * stride <= 3 * stride) by (nonlinear_arith)
            requires
                0 <= n - 1 <= 3,
        ;
        let prev = spec_masked_writes(mask, base, stride, off, val, n - 1);
        if has(mask, n - 1) {
            lemma_below_push(prev, wr((base + (n - 1) * stride + off) as usize, val), lim);
        }
    }
}

proof fn lemma_dma_start_below(mask: u8, chans: Seq<u8>, n: int)
    ensures
        writes_below(spec_dma_start_ops(mask, chans, n), 0xE820_4300),
    decreases n,
{
    if n > 0 {
        lemma_dma_start_below(mask, chans, n - 1);
        if has(mask, n - 1) {
            let ch = chans[n - 1];
            let o = dmac::spec_channel_start_ops(ch);
            assert(dmac::spec_ch_base(ch) <= 0xE820_0000 + 255 * 64 + 0x200);
            assert(writes_below(o, 0xE820_4300));
            lemma_below_concat(spec_dma_start_ops(mask, chans, n - 1), o, 0xE820_4300);
        }
    }
}

proof fn lemma_ffd_boot_below(mask: u8, n: int)
    requires
        0 <= n <= 4,
    ensures
        writes_below(spec_ffd_boot_ops(mask, n), 0xE820_8C00),
    decreases n,
{
    if n > 0 {
        lemma_ffd_boot_below(mask, n - 1);
        if has(mask, n - 1) {
            let w = seq![wr(ffd_at(n - 1, FFDIR_OFF), INIT_CLR), wr(ffd_at(n - 1, FFDBR_OFF), FFDBR_BOOT)];
            assert(writes_below(w, 0xE820_8C00));
            lemma_below_concat(spec_ffd_boot_ops(mask, n - 1), w, 0xE820_8C00);
        }
    }
}

proof fn lemma_src_init_below(mask: u8, val: u32, reload: bool, n: int)
    requires
        0 <= n <= 4,
    ensures
        writes_below(spec_src_init_ops(mask, val, reload, n), 0xE820_9200),
    decreases n,
{
    if n > 0 {
        lemma_src_init_below(mask, val, reload, n - 1);
        let i = n - 1;
        if has(mask, i) {
            let w = seq![wr(src_at(i / 2, i % 2, SRCIR_OFF), val)];
            assert(writes_below(w, 0xE820_9200));
            if reload {
                lemma_below_push(w, wr(srcirr_at(i / 2), val), 0xE820_9200);
                lemma_below_concat(
                    spec_src_init_ops(mask, val, reload, n - 1),
                    w.push(wr(srcirr_at(i / 2), val)),
                    0xE820_9200,
                );
            } else {
                lemma_below_concat(spec_src_init_ops(mask, val, reload, n - 1), w, 0xE820_9200);
            }
        }
    }
}

/// The DMACR word.
pub open spec fn dmacr_addr() -> usize {
    cim_at(DMACR_CIM_OFF)
}

proof fn lemma_below_untouched(ops: Seq<Access>)
    requires
        writes_below(ops, dmacr_addr() as int),
    ensures
        untouched(ops, dmacr_addr(), 4),
{
}

proof fn lemma_path_ops_below(
    ffd_mask: u8,
    ffu_mask: u8,
    src_mask: u8,
    dvu_mask: u8,
    mix_en: bool,
    ipc_mask: u8,
    opc_mask: u8,
    ffd_chans: Seq<u8>,
    ffu_chans: Seq<u8>,
)
    ensures
        writes_below(
            spec_dma_start_ops(ffd_mask, ffd_chans, 4) + spec_dma_start_ops(ffu_mask, ffu_chans, 4)
                + spec_release_ops(
                ffd_mask,
                ffu_mask,
                src_mask,
                dvu_mask,
                mix_en,
                ipc_mask,
                opc_mask,
                Seq::empty(),
            ),
            dmacr_addr() as int,
        ),
        writes_below(
            spec_hold_ops(ffd_mask, ffu_mask, src_mask, dvu_mask, mix_en, ipc_mask, opc_mask),
            dmacr_addr() as int,
        ),
{
    let lim = dmacr_addr() as int;
    assert(lim == 0xE820_9704);
    lemma_dma_start_below(ffd_mask, ffd_chans, 4);
    lemma_dma_start_below(ffu_mask, ffu_chans, 4);
    lemma_ffd_boot_below(ffd_mask, 4);
    lemma_src_init_below(src_mask, INIT_CLR, true, 4);
    lemma_src_init_below(src_mask, INIT_SET, false, 4);
    let m = if mix_en { seq![wr(mix_at(MIXIR_OFF), INIT_CLR)] } else { Seq::<Access>::empty() };
    let ms = if mix_en { seq![wr(mix_at(MIXIR_OFF), INIT_SET)] } else { Seq::<Access>::empty() };
    assert(writes_below(m, lim));
    assert(writes_below(ms, lim));
    assert(writes_below(Seq::<Access>::empty(), lim));
    let ffu_c = spec_masked_writes(ffu_mask, FFU_BASE, FFU_STRIDE, FFUIR_OFF, INIT_CLR, 4);
    let dvu_c = spec_masked_writes(dvu_mask, DVU_BASE, DVU_STRIDE, DVUIR_OFF, INIT_CLR, 4);
    let ipc_c = spec_masked_writes(ipc_mask, IPC_BASE, IPC_STRIDE, IPCIR_OFF, INIT_CLR, 4);
    let opc_c = spec_masked_writes(opc_mask, OPC_BASE, OPC_STRIDE, OPCIR_OFF, INIT_CLR, 4);
    lemma_masked_below(ffu_mask, FFU_BASE, FFU_STRIDE, FFUIR_OFF, INIT_CLR, 4, lim);
    lemma_masked_below(dvu_mask, DVU_BASE, DVU_STRIDE, DVUIR_OFF, INIT_CLR, 4, lim);
    lemma_masked_below(ipc_mask, IPC_BASE, IPC_STRIDE, IPCIR_OFF, INIT_CLR, 4, lim);
    lemma_masked_below(opc_mask, OPC_BASE, OPC_STRIDE, OPCIR_OFF, INIT_CLR, 4, lim);
    lemma_masked_below(ffu_mask, FFU_BASE, FFU_STRIDE, FFUIR_OFF, INIT_SET, 4, lim);
    lemma_masked_below(dvu_mask, DVU_BASE, DVU_STRIDE, DVUIR_OFF, INIT_SET, 4, lim);
    lemma_masked_below(ipc_mask, IPC_BASE, IPC_STRIDE, IPCIR_OFF, INIT_SET, 4, lim);
    lemma_masked_below(opc_mask, OPC_BASE, OPC_STRIDE, OPCIR_OFF, INIT_SET, 4, lim);
    lemma_masked_below(ffd_mask, FFD_BASE, FFD_STRIDE, FFDIR_OFF, INIT_SET, 4, lim);
    // start side
    let boot = spec_ffd_boot_ops(ffd_mask, 4);
    assert(writes_below(boot, lim));
    lemma_below_concat(boot, ffu_c, lim);
    lemma_below_concat(boot + ffu_c, Seq::empty(), lim);
    let fifo = spec_release_fifo_ops(ffd_mask, ffu_mask, Seq::empty());
    assert(fifo == boot + ffu_c + Seq::<Access>::empty());
    let srci = spec_src_init_ops(src_mask, INIT_CLR, true, 4);
    assert(writes_below(srci, lim));
    lemma_below_concat(srci, dvu_c, lim);
    lemma_below_concat(srci + dvu_c, m, lim);
    lemma_below_concat(srci + dvu_c + m, ipc_c, lim);
    lemma_below_concat(srci + dvu_c + m + ipc_c, opc_c, lim);
    let path = spec_release_path_ops(src_mask, dvu_mask, mix_en, ipc_mask, opc_mask);
    assert(path == srci + dvu_c + m + ipc_c + opc_c);
    lemma_below_concat(fifo, path, lim);
    let ds = spec_dma_start_ops(ffd_mask, ffd_chans, 4);
    let us = spec_dma_start_ops(ffu_mask, ffu_chans, 4);
    assert(writes_below(ds, lim));
    assert(writes_below(us, lim));
    lemma_below_concat(ds, us, lim);
    lemma_below_concat(ds + us, fifo + path, lim);
    // stop side
    let opc_s = spec_masked_writes(opc_mask, OPC_BASE, OPC_STRIDE, OPCIR_OFF, INIT_SET, 4);
    let ipc_s = spec_masked_writes(ipc_mask, IPC_BASE, IPC_STRIDE, IPCIR_OFF, INIT_SET, 4);
    let dvu_s = spec_masked_writes(dvu_mask, DVU_BASE, DVU_STRIDE, DVUIR_OFF, INIT_SET, 4);
    let src_s = spec_src_init_ops(src_mask, INIT_SET, false, 4);
    let ffu_s = spec_masked_writes(ffu_mask, FFU_BASE, FFU_STRIDE, FFUIR_OFF, INIT_SET, 4);
    let ffd_s = spec_masked_writes(ffd_mask, FFD_BASE, FFD_STRIDE, FFDIR_OFF, INIT_SET, 4);
    assert(writes_below(src_s, lim));
    lemma_below_concat(opc_s, ipc_s, lim);
    lemma_below_concat(opc_s + ipc_s, ms, lim);
    lemma_below_concat(opc_s + ipc_s + ms, dvu_s, lim);
    lemma_below_concat(opc_s + ipc_s + ms + dvu_s, src_s, lim);
    lemma_below_concat(opc_s + ipc_s + ms + dvu_s + src_s, ffu_s, lim);
    lemma_below_concat(opc_s + ipc_s + ms + dvu_s + src_s + ffu_s, ffd_s, lim);
}

/// Replaying a read then a write of `v` to the DMACR word leaves `v` there.
proof fn lemma_rd_wr_dmacr(mem: Map<usize, u8>, c: u32, v: u32)
    ensures
        spec_read(spec_replay(mem, seq![rd(dmacr_addr(), c), wr(dmacr_addr(), v)]), dmacr_addr(), 4)
            == v,
{
    let ops = seq![rd(dmacr_addr(), c), wr(dmacr_addr(), v)];
    assert(ops.drop_last() == seq![rd(dmacr_addr(), c)]);
    assert(ops.drop_last().drop_last() =~= Seq::<Access>::empty());
    assert(ops.last() == wr(dmacr_addr(), v));
    assert(ops.drop_last().last() == rd(dmacr_addr(), c));
    reveal_with_fuel(spec_replay, 3);
    assert(spec_replay(mem, ops) == spec_store(mem, dmacr_addr(), v, 4));
    lemma_read_after_store(mem, dmacr_addr(), v, 4);
}

/// Starting a path with [`start_path`] and then stopping the same path with
/// [`stop_path`] leaves the DMA request enables (DMACR) exactly as they were
/// before, provided the path's requests were not already enabled: the
/// channels of every other running path stay enabled throughout.
///
/// [`start_path`]: crate::scux::start_path
/// [`stop_path`]: crate::scux::stop_path
pub proof fn lemma_start_then_stop_path_restores_dmacr(
    s0: Shadow,
    s1: Shadow,
    s2: Shadow,
    dma: ScuxDma,
    ffd_mask: u8,
    ffu_mask: u8,
    src_mask: u8,
    dvu_mask: u8,
    mix_en: bool,
    ipc_mask: u8,
    opc_mask: u8,
)
    requires
        performed(
            s0,
            s1,
            spec_start_path_ops(
                dma,
                ffd_mask,
                ffu_mask,
                src_mask,
                dvu_mask,
                mix_en,
                ipc_mask,
                opc_mask,
                spec_read(s0.mem(), dmacr_addr(), 4),
            ),
        ),
        performed(
            s1,
            s2,
            spec_stop_path_ops(
                ffd_mask,
                ffu_mask,
                src_mask,
                dvu_mask,
                mix_en,
                ipc_mask,
                opc_mask,
                spec_read(s1.mem(), dmacr_addr(), 4),
            ),
        ),
        spec_read(s0.mem(), dmacr_addr(), 4) & spec_dmacr_bits(ffd_mask, ffu_mask) == 0,
    ensures
        spec_read(s2.mem(), dmacr_addr(), 4) == spec_read(s0.mem(), dmacr_addr(), 4),
{
    let d = dmacr_addr();
    let cur = spec_read(s0.mem(), d, 4);
    let b = spec_dmacr_bits(ffd_mask, ffu_mask);
    lemma_path_ops_below(
        ffd_mask,
        ffu_mask,
        src_mask,
        dvu_mask,
        mix_en,
        ipc_mask,
        opc_mask,
        dma.ffd_chans(),
        dma.ffu_chans(),
    );
    // start_path
    let head = seq![rd(d, cur), wr(d, cur | b)];
    let tail = spec_dma_start_ops(ffd_mask, dma.ffd_chans(), 4) + spec_dma_start_ops(
        ffu_mask,
        dma.ffu_chans(),
        4,
    ) + spec_release_ops(
        ffd_mask,
        ffu_mask,
        src_mask,
        dvu_mask,
        mix_en,
        ipc_mask,
        opc_mask,
        Seq::empty(),
    );
    let start_ops = spec_start_path_ops(
        dma,
        ffd_mask,
        ffu_mask,
        src_mask,
        dvu_mask,
        mix_en,
        ipc_mask,
        opc_mask,
        cur,
    );
    assert(start_ops =~= head + tail);
    lemma_replay_append(s0.mem(), head, tail);
    lemma_rd_wr_dmacr(s0.mem(), cur, cur | b);
    lemma_below_untouched(tail);
    lemma_replay_keeps_others(spec_replay(s0.mem(), head), d, 4, tail);
    let mid = spec_read(s1.mem(), d, 4);
    assert(mid == cur | b);
    // stop_path
    let hold = spec_hold_ops(ffd_mask, ffu_mask, src_mask, dvu_mask, mix_en, ipc_mask, opc_mask);
    let last = seq![rd(d, mid), wr(d, mid & !b)];
    let stop_ops = spec_stop_path_ops(
        ffd_mask,
        ffu_mask,
        src_mask,
        dvu_mask,
        mix_en,
        ipc_mask,
        opc_mask,
        mid,
    );
    assert(stop_ops =~= hold + last);
    lemma_replay_append(s1.mem(), hold, last);
    lemma_rd_wr_dmacr(spec_replay(s1.mem(), hold), mid, mid & !b);
    assert((cur | b) & !b == cur) by (bit_vector)
        requires
            cur & b == 0,
    ;
}

} // verus!
