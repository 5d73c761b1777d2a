//! DMA controller (DMAC) register layout and the register sequences that
//! configure, start and stop a channel.
//!
//! The DMAC has 16 channels in two groups: channels 0–7 have their 64-byte
//! register windows at `0xE820_0000 + ch * 64`, channels 8–15 at the same
//! place plus a 0x200 gap. Each group has one `DCTRL` register. The DMA
//! resource selectors (`DMARS`) are shared per channel pair: the even
//! channel's selector sits in bits 15:0, the odd channel's in bits 31:16.
use crate::mmio::shadow::{Shadow, Access, access_ok, spec_read};
use crate::mmio::{apart, performed, untouched, wr, rd, w32, r32};
use vstd::prelude::*;

verus! {

pub const DMAC_BASE: usize = 0xE820_0000;
pub const DMARS_BASE: usize = 0xFCFE_1000;

/// Next-0 source address.
pub const OFF_N0SA: usize = 0x00;
/// Next-0 destination address.
pub const OFF_N0DA: usize = 0x04;
/// Next-0 transfer byte count.
pub const OFF_N0TB: usize = 0x08;
/// Current source address.
pub const OFF_CRSA: usize = 0x18;
/// Current destination address.
pub const OFF_CRDA: usize = 0x1C;
/// Channel status (TC = bit 6).
pub const OFF_CHSTAT: usize = 0x24;
/// Channel control.
pub const OFF_CHCTRL: usize = 0x28;
/// Channel configuration.
pub const OFF_CHCFG: usize = 0x2C;
/// Channel interval.
pub const OFF_CHITVL: usize = 0x30;
/// Channel extension.
pub const OFF_CHEXT: usize = 0x34;
/// Next link-descriptor address.
pub const OFF_NXLA: usize = 0x38;

/// CHCTRL: set enable (start transfer).
pub const CHCTRL_SETEN: u32 = 0x01;
/// CHCTRL: clear enable (stop transfer).
pub const CHCTRL_CLREN: u32 = 0x02;
/// CHCTRL: software reset (clears status).
pub const CHCTRL_SWRST: u32 = 0x08;
/// CHCTRL: clear terminal count.
pub const CHCTRL_CLRTC: u32 = 0x40;

/// CHSTAT bit 6: terminal count, set when a transfer completes.
pub const CHSTAT_TC: u32 = 0x40;

/// CHCFG bit 31: DMA mode select (1 = link mode).
pub const CHCFG_DMS: u32 = 0x8000_0000;
/// CHCFG bit 24: DMA end interrupt mask.
pub const CHCFG_DEM: u32 = 0x0100_0000;
/// CHCFG bit 21: destination address fixed.
pub const CHCFG_DAD: u32 = 0x0020_0000;
/// CHCFG bit 20: source address fixed.
pub const CHCFG_SAD: u32 = 0x0010_0000;
/// CHCFG bits 19:16: destination data size 32 bits.
pub const CHCFG_DDS_32BIT: u32 = 0x0002_0000;
/// CHCFG bits 15:12: source data size 32 bits.
pub const CHCFG_SDS_32BIT: u32 = 0x0000_2000;
/// CHCFG bits 10:8: burst-transfer acknowledge mode.
pub const CHCFG_AM_BURST: u32 = 0x0000_0200;
/// CHCFG bit 5: high enable.
pub const CHCFG_HIEN: u32 = 0x0000_0020;
/// CHCFG bit 6: level-triggered request.
pub const CHCFG_LVL: u32 = 0x0000_0040;
/// CHCFG bit 3: request direction (1 = destination selects).
pub const CHCFG_REQD: u32 = 0x0000_0008;

/// Group control register of channels 0–7.
pub const DCTRL_0_7: usize = 0xE820_0300;
/// Group control register of channels 8–15.
pub const DCTRL_8_15: usize = 0xE820_0700;

/// GIC interrupt ID of channel 0's completion interrupt (DMAINT0).
pub const DMAINT_BASE: u16 = 41;

/// Base address of channel `ch`'s register window.
pub open spec fn spec_ch_base(ch: u8) -> int {
    DMAC_BASE + ch * 64 + if ch >= 8 { 0x200int } else { 0int }
}

/// Base address of channel `ch`'s register window.
pub fn ch_base(ch: u8) -> (a: usize)
    ensures
        a == spec_ch_base(ch),
{
    DMAC_BASE + (ch as usize) * 64 + if ch >= 8 { 0x200 } else { 0 }
}

/// The sixteen channel register windows (64 bytes each) never overlap, and
/// neither group's control register lies inside any of them.
pub proof fn lemma_channel_windows_disjoint(a: u8, b: u8)
    requires
        a < b < 16,
    ensures
        spec_ch_base(a) + 64 <= spec_ch_base(b),
        !(spec_ch_base(a) <= spec_dctrl_reg(a) < spec_ch_base(a) + 64),
        !(spec_ch_base(b) <= spec_dctrl_reg(a) < spec_ch_base(b) + 64),
{
}

/// Address of register `off` of channel `ch`.
pub fn ch_reg(ch: u8, off: usize) -> (a: usize)
    requires
        spec_ch_base(ch) + off <= usize::MAX,
    ensures
        a == spec_ch_base(ch) + off,
{
    ch_base(ch) + off
}

/// The group control register that governs channel `ch`.
pub open spec fn spec_dctrl_reg(ch: u8) -> usize {
    if ch < 8 { DCTRL_0_7 } else { DCTRL_8_15 }
}

/// The group control register that governs channel `ch`.
pub fn dctrl_reg(ch: u8) -> (a: usize)
    ensures
        a == spec_dctrl_reg(ch),
{
    if ch < 8 { DCTRL_0_7 } else { DCTRL_8_15 }
}

/// The DMARS word shared by channel `ch` and its pair sibling.
pub open spec fn spec_dmars_reg(ch: u8) -> int {
    DMARS_BASE + (ch / 2) * 4
}

/// The DMARS word shared by channel `ch` and its pair sibling.
pub fn dmars_reg(ch: u8) -> (a: usize)
    ensures
        a == spec_dmars_reg(ch),
{
    DMARS_BASE + (ch as usize / 2) * 4
}

/// The DMARS word after channel `ch`'s selector is set to the low 16 bits of
/// `sel`: an even channel takes bits 15:0, an odd one bits 31:16, and the
/// sibling's half of `current` is kept.
pub open spec fn spec_dmars_merge(current: u32, ch: u8, sel: u32) -> u32 {
    if ch % 2 == 0 {
        (current & 0xFFFF_0000) | (sel & 0xFFFF)
    } else {
        (current & 0x0000_FFFF) | ((sel & 0xFFFF) << 16)
    }
}

/// The DMARS word after channel `ch`'s selector is set to `sel`.
pub fn dmars_merge(current: u32, ch: u8, sel: u32) -> (w: u32)
    ensures
        w == spec_dmars_merge(current, ch, sel),
{
    if ch & 1 == 0 {
        assert(ch & 1 == ch % 2) by (bit_vector);
        (current & 0xFFFF_0000) | (sel & 0xFFFF)
    } else {
        assert(ch & 1 == ch % 2) by (bit_vector);
        (current & 0x0000_FFFF) | ((sel & 0xFFFF) << 16)
    }
}

/// Setting one channel's selector keeps its sibling's, and reading the
/// channel's half back gives the selector's low 16 bits.
pub proof fn lemma_dmars_merge_keeps_sibling(current: u32, ch: u8, sel: u32)
    ensures
        ch % 2 == 0 ==> spec_dmars_merge(current, ch, sel) >> 16 == current >> 16
            && spec_dmars_merge(current, ch, sel) & 0xFFFF == sel & 0xFFFF,
        ch % 2 == 1 ==> spec_dmars_merge(current, ch, sel) & 0xFFFF == current & 0xFFFF
            && spec_dmars_merge(current, ch, sel) >> 16 == sel & 0xFFFF,
{
    assert(((current & 0xFFFF_0000) | (sel & 0xFFFF)) >> 16 == current >> 16) by (bit_vector);
    assert(((current & 0xFFFF_0000) | (sel & 0xFFFF)) & 0xFFFF == sel & 0xFFFF) by (bit_vector);
    assert(((current & 0x0000_FFFF) | ((sel & 0xFFFF) << 16)) & 0xFFFF == current & 0xFFFF)
        by (bit_vector);
    assert(((current & 0x0000_FFFF) | ((sel & 0xFFFF) << 16)) >> 16 == sel & 0xFFFF)
        by (bit_vector);
}

/// The GIC interrupt ID of channel `ch`'s completion interrupt.
pub fn dmaint_id(ch: u8) -> (id: u16)
    ensures
        id == DMAINT_BASE + ch,
{
    DMAINT_BASE + ch as u16
}

/// Whether a CHSTAT value reports a finished transfer (TC set).
pub fn transfer_complete(chstat: u32) -> (done: bool)
    ensures
        done == (chstat & CHSTAT_TC != 0),
{
    chstat & CHSTAT_TC != 0
}

/// Register `off` of channel `ch`, as an address.
pub open spec fn reg(ch: u8, off: usize) -> usize {
    (spec_ch_base(ch) + off) as usize
}

/// Read channel `ch`'s DMARS word and write it back with the channel's half
/// set to `sel`, extending a run of accesses that began at `s0` and has not
/// yet written that word.
fn set_dmars(
    s: &mut Shadow,
    ch: u8,
    sel: u32,
    Ghost(s0): Ghost<Shadow>,
    Ghost(done): Ghost<Seq<Access>>,
) -> (r: Ghost<Seq<Access>>)
    requires
        performed(s0, *old(s), done),
        untouched(done, spec_dmars_reg(ch) as usize, 4),
    ensures
        ({
            let cur = spec_read(s0.mem(), spec_dmars_reg(ch) as usize, 4);
            r@ == done + seq![
                rd(spec_dmars_reg(ch) as usize, cur),
                wr(spec_dmars_reg(ch) as usize, spec_dmars_merge(cur, ch, sel)),
            ]
        }),
        performed(s0, *final(s), r@),
{
    let dmars = dmars_reg(ch);
    let (cur, Ghost(d1)) = r32(s, dmars, Ghost(s0), Ghost(done));
    proof {
        crate::mmio::lemma_replay_keeps_others(s0.mem(), dmars, 4, done);
    }
    let Ghost(d2) = w32(s, dmars, dmars_merge(cur, ch, sel), Ghost(s0), Ghost(d1));
    assert(d2 =~= done + seq![rd(dmars, cur), wr(dmars, spec_dmars_merge(cur, ch, sel))]);
    Ghost(d2)
}

/// The accesses of [`init_with_link_descriptor`], given the DMARS word it
/// read (`cur`).
pub open spec fn spec_init_link_ops(ch: u8, chcfg: u32, desc_addr: u32, sel: u32, cur: u32)
    -> Seq<Access>
{
    seq![
        wr(spec_dctrl_reg(ch), 0),
        wr(reg(ch, OFF_CHCFG), chcfg),
        rd(spec_dmars_reg(ch) as usize, cur),
        wr(spec_dmars_reg(ch) as usize, spec_dmars_merge(cur, ch, sel)),
        wr(reg(ch, OFF_NXLA), desc_addr),
    ]
}

/// Initialise channel `ch` in link-descriptor mode: clear the group's DCTRL,
/// load CHCFG from word 4 of `descriptor`, set the channel's half of its
/// DMARS word to `dmars_val`, and point NXLA at the descriptor, which lives
/// at `desc_addr`.
pub fn init_with_link_descriptor(
    s: &mut Shadow,
    ch: u8,
    descriptor: &[u32; 8],
    desc_addr: u32,
    dmars_val: u32,
)
    ensures
        performed(
            *old(s),
            *final(s),
            spec_init_link_ops(
                ch,
                descriptor[4],
                desc_addr,
                dmars_val,
                spec_read(old(s).mem(), spec_dmars_reg(ch) as usize, 4),
            ),
        ),
{
    let ghost s0 = *s;
    proof {
        crate::mmio::lemma_performed_nothing(s0);
    }
    let chcfg = descriptor[4];
    let Ghost(d1) = w32(s, dctrl_reg(ch), 0, Ghost(s0), Ghost(Seq::empty()));
    let Ghost(d2) = w32(s, ch_reg(ch, OFF_CHCFG), chcfg, Ghost(s0), Ghost(d1));
    let ghost cur = spec_read(s0.mem(), spec_dmars_reg(ch) as usize, 4);
    assert(untouched(d2, spec_dmars_reg(ch) as usize, 4));
    let Ghost(d3) = set_dmars(s, ch, dmars_val, Ghost(s0), Ghost(d2));
    let Ghost(done) = w32(s, ch_reg(ch, OFF_NXLA), desc_addr, Ghost(s0), Ghost(d3));
    assert(done =~= spec_init_link_ops(ch, chcfg, desc_addr, dmars_val, cur));
}

/// The accesses of [`channel_start`].
pub open spec fn spec_channel_start_ops(ch: u8) -> Seq<Access> {
    seq![wr(reg(ch, OFF_CHCTRL), CHCTRL_SWRST), wr(reg(ch, OFF_CHCTRL), CHCTRL_SETEN)]
}

/// Start channel `ch`: software reset, then set enable. CHCTRL's bits are
/// write-1-to-trigger, so both are plain writes.
pub fn channel_start(s: &mut Shadow, ch: u8)
    ensures
        performed(*old(s), *final(s), spec_channel_start_ops(ch)),
{
    let ghost s0 = *s;
    proof {
        crate::mmio::lemma_performed_nothing(s0);
    }
    let chctrl = ch_reg(ch, OFF_CHCTRL);
    let Ghost(d1) = w32(s, chctrl, CHCTRL_SWRST, Ghost(s0), Ghost(Seq::empty()));
    let Ghost(d2) = w32(s, chctrl, CHCTRL_SETEN, Ghost(s0), Ghost(d1));
    assert(d2 =~= spec_channel_start_ops(ch));
}

/// The accesses of [`stop`].
pub open spec fn spec_stop_ops(ch: u8) -> Seq<Access> {
    seq![wr(reg(ch, OFF_CHCTRL), CHCTRL_CLREN), wr(reg(ch, OFF_CHCTRL), CHCTRL_SWRST)]
}

/// Stop channel `ch` at once: clear its enable, then software-reset it so a
/// circular transfer ceases too.
pub fn stop(s: &mut Shadow, ch: u8)
    ensures
        performed(*old(s), *final(s), spec_stop_ops(ch)),
{
    let ghost s0 = *s;
    proof {
        crate::mmio::lemma_performed_nothing(s0);
    }
    let chctrl = ch_reg(ch, OFF_CHCTRL);
    let Ghost(d1) = w32(s, chctrl, CHCTRL_CLREN, Ghost(s0), Ghost(Seq::empty()));
    let Ghost(d2) = w32(s, chctrl, CHCTRL_SWRST, Ghost(s0), Ghost(d1));
    assert(d2 =~= spec_stop_ops(ch));
}

/// The current source address of channel `ch` (CRSA).
pub fn current_src(s: &mut Shadow, ch: u8) -> (v: u32)
    ensures
        v == spec_read(old(s).mem(), reg(ch, OFF_CRSA), 4),
        performed(*old(s), *final(s), seq![rd(reg(ch, OFF_CRSA), v)]),
{
    let ghost s0 = *s;
    proof {
        crate::mmio::lemma_performed_nothing(s0);
    }
    let (v, Ghost(d1)) = r32(s, ch_reg(ch, OFF_CRSA), Ghost(s0), Ghost(Seq::empty()));
    assert(d1 =~= seq![rd(reg(ch, OFF_CRSA), v)]);
    v
}

/// The current destination address of channel `ch` (CRDA).
pub fn current_dst(s: &mut Shadow, ch: u8) -> (v: u32)
    ensures
        v == spec_read(old(s).mem(), reg(ch, OFF_CRDA), 4),
        performed(*old(s), *final(s), seq![rd(reg(ch, OFF_CRDA), v)]),
{
    let ghost s0 = *s;
    proof {
        crate::mmio::lemma_performed_nothing(s0);
    }
    let (v, Ghost(d1)) = r32(s, ch_reg(ch, OFF_CRDA), Ghost(s0), Ghost(Seq::empty()));
    assert(d1 =~= seq![rd(reg(ch, OFF_CRDA), v)]);
    v
}

/// The accesses of [`init_register_mode`] (`addr_off` = N0DA) and
/// [`init_register_mode_rx`] (`addr_off` = N0SA), given the DMARS word read.
pub open spec fn spec_init_register_ops(
    ch: u8,
    chcfg: u32,
    addr_off: usize,
    addr: u32,
    sel: u32,
    cur: u32,
) -> Seq<Access> {
    seq![
        wr(spec_dctrl_reg(ch), 0),
        wr(reg(ch, OFF_CHCFG), chcfg),
        wr(reg(ch, OFF_CHITVL), 0),
        wr(reg(ch, OFF_CHEXT), 0),
        wr(reg(ch, addr_off), addr),
        wr(reg(ch, OFF_CHCTRL), CHCTRL_SWRST | CHCTRL_CLRTC),
        wr(reg(ch, addr_off), addr),
        rd(spec_dmars_reg(ch) as usize, cur),
        wr(spec_dmars_reg(ch) as usize, spec_dmars_merge(cur, ch, sel)),
    ]
}

/// Shared body of the two register-mode initialisations: `addr_off` is the
/// fixed-address register (N0DA for memory→peripheral, N0SA for
/// peripheral→memory).
fn init_register(s: &mut Shadow, ch: u8, chcfg: u32, addr_off: usize, addr: u32, sel: u32)
    requires
        addr_off == OFF_N0DA || addr_off == OFF_N0SA,
    ensures
        performed(
            *old(s),
            *final(s),
            spec_init_register_ops(
                ch,
                chcfg,
                addr_off,
                addr,
                sel,
                spec_read(old(s).mem(), spec_dmars_reg(ch) as usize, 4),
            ),
        ),
{
    let ghost s0 = *s;
    proof {
        crate::mmio::lemma_performed_nothing(s0);
    }
    let Ghost(d1) = w32(s, dctrl_reg(ch), 0, Ghost(s0), Ghost(Seq::empty()));
    let Ghost(d2) = w32(s, ch_reg(ch, OFF_CHCFG), chcfg, Ghost(s0), Ghost(d1));
    let Ghost(d3) = w32(s, ch_reg(ch, OFF_CHITVL), 0, Ghost(s0), Ghost(d2));
    let Ghost(d4) = w32(s, ch_reg(ch, OFF_CHEXT), 0, Ghost(s0), Ghost(d3));
    let Ghost(d5) = w32(s, ch_reg(ch, addr_off), addr, Ghost(s0), Ghost(d4));
    let Ghost(d6) = w32(
        s,
        ch_reg(ch, OFF_CHCTRL),
        CHCTRL_SWRST | CHCTRL_CLRTC,
        Ghost(s0),
        Ghost(d5),
    );
    let Ghost(d7) = w32(s, ch_reg(ch, addr_off), addr, Ghost(s0), Ghost(d6));
    assert(untouched(d7, spec_dmars_reg(ch) as usize, 4));
    let Ghost(d8) = set_dmars(s, ch, sel, Ghost(s0), Ghost(d7));
    assert(d8 =~= spec_init_register_ops(
        ch,
        chcfg,
        addr_off,
        addr,
        sel,
        spec_read(s0.mem(), spec_dmars_reg(ch) as usize, 4),
    ));
}

/// Initialise channel `ch` in register mode for a memory→peripheral block
/// transfer to the fixed address `dst`: clear DCTRL, program CHCFG (with
/// CHITVL and CHEXT zero), set N0DA, software-reset and clear TC, set N0DA
/// again, and set the channel's DMARS half.
pub fn init_register_mode(s: &mut Shadow, ch: u8, chcfg: u32, dst: u32, dmars: u32)
    ensures
        performed(
            *old(s),
            *final(s),
            spec_init_register_ops(
                ch,
                chcfg,
                OFF_N0DA,
                dst,
                dmars,
                spec_read(old(s).mem(), spec_dmars_reg(ch) as usize, 4),
            ),
        ),
{
    init_register(s, ch, chcfg, OFF_N0DA, dst, dmars);
}

/// Initialise channel `ch` in register mode for a peripheral→memory block
/// transfer from the fixed address `src` (N0SA in place of N0DA).
pub fn init_register_mode_rx(s: &mut Shadow, ch: u8, chcfg: u32, src: u32, dmars: u32)
    ensures
        performed(
            *old(s),
            *final(s),
            spec_init_register_ops(
                ch,
                chcfg,
                OFF_N0SA,
                src,
                dmars,
                spec_read(old(s).mem(), spec_dmars_reg(ch) as usize, 4),
            ),
        ),
{
    init_register(s, ch, chcfg, OFF_N0SA, src, dmars);
}

/// The accesses of [`start_transfer`] (`addr_off` = N0SA) and
/// [`start_transfer_rx`] (`addr_off` = N0DA).
pub open spec fn spec_start_transfer_ops(ch: u8, addr_off: usize, addr: u32, count: u32) -> Seq<
    Access,
> {
    seq![
        wr(reg(ch, addr_off), addr),
        wr(reg(ch, OFF_N0TB), count),
        wr(reg(ch, OFF_CHCTRL), CHCTRL_CLRTC | CHCTRL_SETEN),
    ]
}

fn start_one_shot(s: &mut Shadow, ch: u8, addr_off: usize, addr: u32, count: u32)
    requires
        addr_off == OFF_N0DA || addr_off == OFF_N0SA,
    ensures
        performed(*old(s), *final(s), spec_start_transfer_ops(ch, addr_off, addr, count)),
{
    let ghost s0 = *s;
    proof {
        crate::mmio::lemma_performed_nothing(s0);
    }
    let Ghost(d1) = w32(s, ch_reg(ch, addr_off), addr, Ghost(s0), Ghost(Seq::empty()));
    let Ghost(d2) = w32(s, ch_reg(ch, OFF_N0TB), count, Ghost(s0), Ghost(d1));
    let Ghost(d3) = w32(
        s,
        ch_reg(ch, OFF_CHCTRL),
        CHCTRL_CLRTC | CHCTRL_SETEN,
        Ghost(s0),
        Ghost(d2),
    );
    assert(d3 =~= spec_start_transfer_ops(ch, addr_off, addr, count));
}

/// Arm and start a one-shot memory→peripheral transfer of `count` bytes from
/// `src`: N0SA, N0TB, then CLRTC | SETEN.
pub fn start_transfer(s: &mut Shadow, ch: u8, src: u32, count: u32)
    ensures
        performed(*old(s), *final(s), spec_start_transfer_ops(ch, OFF_N0SA, src, count)),
{
    start_one_shot(s, ch, OFF_N0SA, src, count);
}

/// Arm and start a one-shot peripheral→memory transfer of `count` bytes to
/// `dst`: N0DA, N0TB, then CLRTC | SETEN.
pub fn start_transfer_rx(s: &mut Shadow, ch: u8, dst: u32, count: u32)
    ensures
        performed(*old(s), *final(s), spec_start_transfer_ops(ch, OFF_N0DA, dst, count)),
{
    start_one_shot(s, ch, OFF_N0DA, dst, count);
}

/// One poll of a one-shot transfer: read CHSTAT and report whether TC is set.
pub fn poll_transfer_complete(s: &mut Shadow, ch: u8) -> (done: bool)
    ensures
        done == (spec_read(old(s).mem(), reg(ch, OFF_CHSTAT), 4) & CHSTAT_TC != 0),
        performed(
            *old(s),
            *final(s),
            seq![rd(reg(ch, OFF_CHSTAT), spec_read(old(s).mem(), reg(ch, OFF_CHSTAT), 4))],
        ),
{
    let ghost s0 = *s;
    proof {
        crate::mmio::lemma_performed_nothing(s0);
    }
    let (v, Ghost(d1)) = r32(s, ch_reg(ch, OFF_CHSTAT), Ghost(s0), Ghost(Seq::empty()));
    assert(d1 =~= seq![rd(reg(ch, OFF_CHSTAT), v)]);
    transfer_complete(v)
}

/// Re-arm a descriptor-ring channel after a block interrupt: clear TC only
/// (no software reset, so the ring keeps running).
pub fn ack_block(s: &mut Shadow, ch: u8)
    ensures
        performed(*old(s), *final(s), seq![wr(reg(ch, OFF_CHCTRL), CHCTRL_CLRTC)]),
{
    let ghost s0 = *s;
    proof {
        crate::mmio::lemma_performed_nothing(s0);
    }
    let Ghost(d1) = w32(s, ch_reg(ch, OFF_CHCTRL), CHCTRL_CLRTC, Ghost(s0), Ghost(Seq::empty()));
    assert(d1 =~= seq![wr(reg(ch, OFF_CHCTRL), CHCTRL_CLRTC)]);
}

/// Starting a channel leaves it enabled: the run is writes to the channel's
/// CHCTRL only, the first a software reset and the last the enable, so
/// CHCTRL reads back `CHCTRL_SETEN` afterwards.
pub proof fn lemma_channel_start_leaves_enabled(before: Shadow, after: Shadow, ch: u8)
    requires
        performed(before, after, spec_channel_start_ops(ch)),
    ensures
        spec_read(after.mem(), reg(ch, OFF_CHCTRL), 4) == CHCTRL_SETEN,
        ({
            let run = after.trace().subrange(before.trace().len() as int, after.trace().len() as int);
            &&& run.len() >= 2
            &&& forall|k: int| 0 <= k < run.len() ==> (#[trigger] run[k]).write && run[k].addr == reg(ch, OFF_CHCTRL)
            &&& run[0].val == CHCTRL_SWRST
            &&& run.last().val == CHCTRL_SETEN
        }),
{
    let ops = spec_channel_start_ops(ch);
    let pre = seq![wr(reg(ch, OFF_CHCTRL), CHCTRL_SWRST)];
    assert(ops =~= pre.push(wr(reg(ch, OFF_CHCTRL), CHCTRL_SETEN)) + Seq::<Access>::empty());
    assert(reg(ch, OFF_CHCTRL) + 4 <= usize::MAX + 1);
    crate::mmio::lemma_read_last_write(before.mem(), pre, reg(ch, OFF_CHCTRL), CHCTRL_SETEN, Seq::empty());
    let run = after.trace().subrange(before.trace().len() as int, after.trace().len() as int);
    assert(run =~= ops);
}

/// Stopping a channel clears its enable and then resets it: the run is
/// writes to the channel's CHCTRL only, first `CHCTRL_CLREN`, last
/// `CHCTRL_SWRST`, which CHCTRL reads back afterwards.
pub proof fn lemma_stop_clears_then_resets(before: Shadow, after: Shadow, ch: u8)
    requires
        performed(before, after, spec_stop_ops(ch)),
    ensures
        spec_read(after.mem(), reg(ch, OFF_CHCTRL), 4) == CHCTRL_SWRST,
        ({
            let run = after.trace().subrange(before.trace().len() as int, after.trace().len() as int);
            &&& run.len() >= 2
            &&& forall|k: int| 0 <= k < run.len() ==> (#[trigger] run[k]).write && run[k].addr == reg(ch, OFF_CHCTRL)
            &&& run[0].val == CHCTRL_CLREN
            &&& run.last().val == CHCTRL_SWRST
        }),
{
    let ops = spec_stop_ops(ch);
    let pre = seq![wr(reg(ch, OFF_CHCTRL), CHCTRL_CLREN)];
    assert(ops =~= pre.push(wr(reg(ch, OFF_CHCTRL), CHCTRL_SWRST)) + Seq::<Access>::empty());
    crate::mmio::lemma_read_last_write(before.mem(), pre, reg(ch, OFF_CHCTRL), CHCTRL_SWRST, Seq::empty());
    let run = after.trace().subrange(before.trace().len() as int, after.trace().len() as int);
    assert(run =~= ops);
}

/// After a link-descriptor setup of channel `ch` (one of the sixteen), the
/// group's DCTRL is cleared, CHCFG holds word 4 of the descriptor, NXLA
/// points at the descriptor, and the channel's half of its DMARS word holds
/// the request selector while the sibling channel's half is as it was.
pub proof fn lemma_init_link_sets_registers(
    before: Shadow,
    after: Shadow,
    ch: u8,
    chcfg: u32,
    desc_addr: u32,
    sel: u32,
)
    requires
        ch < 16,
        performed(
            before,
            after,
            spec_init_link_ops(ch, chcfg, desc_addr, sel, spec_read(before.mem(), spec_dmars_reg(ch) as usize, 4)),
        ),
    ensures
        spec_read(after.mem(), spec_dctrl_reg(ch), 4) == 0,
        spec_read(after.mem(), reg(ch, OFF_CHCFG), 4) == chcfg,
        spec_read(after.mem(), reg(ch, OFF_NXLA), 4) == desc_addr,
        ({
            let old_w = spec_read(before.mem(), spec_dmars_reg(ch) as usize, 4);
            let new_w = spec_read(after.mem(), spec_dmars_reg(ch) as usize, 4);
            &&& ch % 2 == 0 ==> new_w & 0xFFFF == sel & 0xFFFF && new_w >> 16 == old_w >> 16
            &&& ch % 2 == 1 ==> new_w >> 16 == sel & 0xFFFF && new_w & 0xFFFF == old_w & 0xFFFF
        }),
{
    let cur = spec_read(before.mem(), spec_dmars_reg(ch) as usize, 4);
    let dm = spec_dmars_reg(ch) as usize;
    let w_dc = wr(spec_dctrl_reg(ch), 0);
    let w_cfg = wr(reg(ch, OFF_CHCFG), chcfg);
    let r_dm = rd(dm, cur);
    let w_dm = wr(dm, spec_dmars_merge(cur, ch, sel));
    let w_nx = wr(reg(ch, OFF_NXLA), desc_addr);
    let e = Seq::<Access>::empty();
    let ops = spec_init_link_ops(ch, chcfg, desc_addr, sel, cur);
    let mem = before.mem();
    assert(ops =~= e.push(w_dc) + seq![w_cfg, r_dm, w_dm, w_nx]);
    assert(ops =~= e.push(w_dc).push(w_cfg) + seq![r_dm, w_dm, w_nx]);
    assert(ops =~= e.push(w_dc).push(w_cfg).push(r_dm).push(w_dm) + seq![w_nx]);
    assert(ops =~= e.push(w_dc).push(w_cfg).push(r_dm).push(w_dm).push(w_nx) + e);
    let p1 = seq![w_cfg, r_dm, w_dm, w_nx];
    assert(untouched(p1, spec_dctrl_reg(ch), 4)) by {
        assert forall|i: int| 0 <= i < p1.len() && (#[trigger] p1[i]).write implies apart(
            p1[i].addr as int, p1[i].width as int, spec_dctrl_reg(ch) as int, 4) by {
            if i == 0 { assert(p1[i] == w_cfg); } else if i == 1 { assert(p1[i] == r_dm); }
            else if i == 2 { assert(p1[i] == w_dm); } else { assert(p1[i] == w_nx); }
        }
    }
    let p2 = seq![r_dm, w_dm, w_nx];
    assert(untouched(p2, reg(ch, OFF_CHCFG), 4)) by {
        assert forall|i: int| 0 <= i < p2.len() && (#[trigger] p2[i]).write implies apart(
            p2[i].addr as int, p2[i].width as int, reg(ch, OFF_CHCFG) as int, 4) by {
            if i == 0 { assert(p2[i] == r_dm); } else if i == 1 { assert(p2[i] == w_dm); }
            else { assert(p2[i] == w_nx); }
        }
    }
    let p3 = seq![w_nx];
    assert(untouched(p3, dm, 4)) by {
        assert forall|i: int| 0 <= i < p3.len() && (#[trigger] p3[i]).write implies apart(
            p3[i].addr as int, p3[i].width as int, dm as int, 4) by {
            assert(p3[i] == w_nx);
        }
    }
    crate::mmio::lemma_read_last_write(mem, e, spec_dctrl_reg(ch), 0, p1);
    crate::mmio::lemma_read_last_write(mem, e.push(w_dc), reg(ch, OFF_CHCFG), chcfg, p2);
    crate::mmio::lemma_read_last_write(mem, e.push(w_dc).push(w_cfg).push(r_dm), dm, spec_dmars_merge(cur, ch, sel), p3);
    crate::mmio::lemma_read_last_write(mem, e.push(w_dc).push(w_cfg).push(r_dm).push(w_dm), reg(ch, OFF_NXLA), desc_addr, e);
    lemma_dmars_merge_keeps_sibling(cur, ch, sel);
}

} // verus!
