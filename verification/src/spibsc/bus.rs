//! The SPIBSC0 controller's register sequences: leaving and re-entering the
//! memory-mapped read mode, manual JEDEC transfers, and the erase and program
//! paths behind the write guards.
//!
//! Only the controller's status (CMNSR) and read-data (SMRDR0) registers are
//! written by the hardware; no sequence here writes them, so every poll of
//! them within a sequence sees the same value.
use crate::mmio::shadow::{Shadow, Access, spec_read, spec_store, access_ok};
use crate::mmio::{performed, apart, untouched, wr, rd, w32, r32, spec_replay};
use crate::spibsc::{
    FlashMap, Window, SMCR_SPIE, SMCR_SPIWE, SMCR_SPIRE, SMCR_SSLKP, SMENR_SPIDE_8,
    SMENR_SPIDE_32, spec_within_windows, spec_in_chip, spec_capacity_from_id, guard,
    capacity_from_id, DataUnit, spec_units, page_units, Chunk, spec_chunks, program_plan,
    lemma_chunks_in_range, erase_plan, spec_block_addrs, spec_sector_floor, steps_fit,
};
use vstd::prelude::*;

verus! {

pub const SPIBSC0: usize = 0x3FEF_A000;
/// Common control (bit 31 MD: manual SPI mode).
pub const CMNCR: usize = 0x3FEF_A000;
/// Data-read control (bit 9 RCF: flush the read cache; bit 24 SSLN).
pub const DRCR: usize = 0x3FEF_A00C;
/// Manual control.
pub const SMCR: usize = 0x3FEF_A020;
/// Manual command (command byte in bits 23:16).
pub const SMCMR: usize = 0x3FEF_A024;
/// Manual address.
pub const SMADR: usize = 0x3FEF_A028;
/// Manual enable.
pub const SMENR: usize = 0x3FEF_A030;
/// Manual read data.
pub const SMRDR0: usize = 0x3FEF_A038;
/// Manual write data.
pub const SMWDR0: usize = 0x3FEF_A040;
/// Common status (bit 0 TEND, bit 1 SSLF).
pub const CMNSR: usize = 0x3FEF_A048;

pub const CMNCR_MD: u32 = 0x8000_0000;
pub const DRCR_RCF: u32 = 0x200;
pub const DRCR_SSLN: u32 = 0x0100_0000;
pub const CMNSR_TEND: u32 = 0x1;
pub const CMNSR_SSLF: u32 = 0x2;
pub const SMENR_CDE: u32 = 0x4000;
pub const SMENR_ADE_3B: u32 = 0x700;
pub const CMD_WREN: u32 = 0x06;
pub const CMD_RDSR: u32 = 0x05;
pub const CMD_RDID: u32 = 0x9F;
pub const CMD_PP: u32 = 0x02;
pub const CMD_SECTOR_ERASE: u32 = 0xD8;
pub const CMD_CLEAR_STATUS: u32 = 0x30;
pub const SR_WIP: u32 = 0x1;
pub const SR_E_ERR: u32 = 0x20;
pub const SR_P_ERR: u32 = 0x40;
/// Polls of TEND (and of SSLF) before giving up.
pub const TEND_TIMEOUT: u32 = 2_000_000;
/// Status reads waiting for WIP to clear before giving up.
pub const WIP_TIMEOUT: u32 = 8_000_000;

/// The 32-bit register at `a`.
pub open spec fn reg(mem: Map<usize, u8>, a: usize) -> u32 {
    spec_read(mem, a, 4) as u32
}

/// The two hardware-written registers read the same in `a` and `b`.
pub open spec fn status_kept(a: Shadow, b: Shadow) -> bool {
    reg(a.mem(), CMNSR) == reg(b.mem(), CMNSR) && reg(a.mem(), SMRDR0) == reg(b.mem(), SMRDR0)
}

/// `n` polls of the register at `a`, each returning `v`.
pub open spec fn spec_polls(a: usize, v: u32, n: nat) -> Seq<Access> {
    Seq::new(n, |i: int| rd(a, v))
}

proof fn lemma_polls_push(a: usize, v: u32, n: nat)
    ensures
        spec_polls(a, v, n).push(rd(a, v)) == spec_polls(a, v, n + 1),
{
    assert(spec_polls(a, v, n).push(rd(a, v)) =~= spec_polls(a, v, n + 1));
}

/// A 32-bit write to a register other than the two status registers.
fn put(s: &mut Shadow, addr: usize, val: u32, Ghost(s0): Ghost<Shadow>, Ghost(done): Ghost<Seq<Access>>) -> (r: Ghost<Seq<Access>>)
    requires
        addr == CMNCR || addr == DRCR || addr == SMCR || addr == SMCMR || addr == SMADR || addr
            == SMENR || addr == SMWDR0,
        performed(s0, *old(s), done),
    ensures
        r@ == done.push(wr(addr, val)),
        performed(s0, *final(s), r@),
        final(s).mem() == spec_store(old(s).mem(), addr, val, 4),
        status_kept(*old(s), *final(s)),
{
    let r = w32(s, addr, val, Ghost(s0), Ghost(done));
    proof {
        crate::mmio::lemma_store_keeps_others(old(s).mem(), addr, val, 4, CMNSR, 4);
        crate::mmio::lemma_store_keeps_others(old(s).mem(), addr, val, 4, SMRDR0, 4);
    }
    r
}

/// The TEND polls of [`wait_tend`] given CMNSR `t`: one when the transfer
/// has ended, else `TEND_TIMEOUT + 1`.
pub open spec fn spec_tend_ops(t: u32) -> Seq<Access> {
    if t & CMNSR_TEND != 0 {
        seq![rd(CMNSR, t)]
    } else {
        spec_polls(CMNSR, t, TEND_TIMEOUT as nat + 1)
    }
}

/// Wait for the manual transfer to end (TEND), at most `TEND_TIMEOUT`
/// further polls; `true` if it ended.
fn wait_tend(s: &mut Shadow, Ghost(s0): Ghost<Shadow>, Ghost(done): Ghost<Seq<Access>>) -> (r: (bool, Ghost<Seq<Access>>))
    requires
        performed(s0, *old(s), done),
    ensures
        r.0 == (reg(old(s).mem(), CMNSR) & CMNSR_TEND != 0),
        r.1@ == done + spec_tend_ops(reg(old(s).mem(), CMNSR)),
        performed(s0, *final(s), r.1@),
        final(s).mem() == old(s).mem(),
{
    let ghost t = reg(s.mem(), CMNSR);
    let ghost mem0 = s.mem();
    let mut n: u32 = TEND_TIMEOUT;
    let ghost mut d = done;
    assert(d =~= done + spec_polls(CMNSR, t, 0));
    loop
        invariant
            n <= TEND_TIMEOUT,
            s.mem() == mem0,
            mem0 == old(s).mem(),
            t == reg(mem0, CMNSR),
            performed(s0, *s, d),
            d == done + spec_polls(CMNSR, t, (TEND_TIMEOUT - n) as nat),
            t & CMNSR_TEND == 0 || n == TEND_TIMEOUT,
        decreases n,
    {
        let (v, Ghost(d2)) = r32(s, CMNSR, Ghost(s0), Ghost(d));
        proof {
            lemma_polls_push(CMNSR, t, (TEND_TIMEOUT - n) as nat);
        }
        if v & CMNSR_TEND != 0 {
            assert(d2 =~= done + spec_tend_ops(t));
            return (true, Ghost(d2));
        }
        if n == 0 {
            assert(d2 =~= done + spec_tend_ops(t));
            return (false, Ghost(d2));
        }
        n = n - 1;
        proof {
            d = d2;
        }
    }
}

proof fn lemma_put_reads(mem: Map<usize, u8>, addr: usize, val: u32)
    requires
        addr == CMNCR || addr == DRCR || addr == SMCR || addr == SMCMR || addr == SMADR || addr
            == SMENR || addr == SMWDR0,
    ensures
        reg(spec_store(mem, addr, val, 4), addr) == val,
        addr != CMNCR ==> reg(spec_store(mem, addr, val, 4), CMNCR) == reg(mem, CMNCR),
        addr != DRCR ==> reg(spec_store(mem, addr, val, 4), DRCR) == reg(mem, DRCR),
{
    crate::mmio::shadow::lemma_read_after_store(mem, addr, val, 4);
    if addr != CMNCR {
        crate::mmio::lemma_store_keeps_others(mem, addr, val, 4, CMNCR, 4);
    }
    if addr != DRCR {
        crate::mmio::lemma_store_keeps_others(mem, addr, val, 4, DRCR, 4);
    }
}

/// The accesses of [`bus_stop`] given DRCR `d` and CMNSR `t`: negate SSL,
/// then poll SSLF until it clears, at most `TEND_TIMEOUT` further polls.
pub open spec fn spec_stop_ops(d: u32, t: u32) -> Seq<Access> {
    seq![rd(DRCR, d), wr(DRCR, d | DRCR_SSLN)] + if t & CMNSR_SSLF == 0 {
        seq![rd(CMNSR, t)]
    } else {
        spec_polls(CMNSR, t, TEND_TIMEOUT as nat + 1)
    }
}

/// Quiesce the bus before changing the mode: negate SSL (DRCR.SSLN) and wait
/// (bounded) for the chip select to be released.
fn bus_stop(s: &mut Shadow, Ghost(s0): Ghost<Shadow>, Ghost(done): Ghost<Seq<Access>>) -> (r: Ghost<Seq<Access>>)
    requires
        performed(s0, *old(s), done),
    ensures
        r@ == done + spec_stop_ops(reg(old(s).mem(), DRCR), reg(old(s).mem(), CMNSR)),
        performed(s0, *final(s), r@),
        final(s).mem() == spec_store(old(s).mem(), DRCR, reg(old(s).mem(), DRCR) | DRCR_SSLN, 4),
        status_kept(*old(s), *final(s)),
{
    let ghost mem0 = s.mem();
    let (d, Ghost(d1)) = r32(s, DRCR, Ghost(s0), Ghost(done));
    let Ghost(d2) = put(s, DRCR, d | DRCR_SSLN, Ghost(s0), Ghost(d1));
    let ghost t = reg(s.mem(), CMNSR);
    let ghost mem1 = s.mem();
    let ghost head = d2;
    let mut n: u32 = TEND_TIMEOUT;
    let ghost mut dd = d2;
    let ghost mut k: nat = 0;
    let mut waiting = true;
    assert(dd =~= head + spec_polls(CMNSR, t, 0));
    while waiting
        invariant
            n <= TEND_TIMEOUT,
            s.mem() == mem1,
            t == reg(mem1, CMNSR),
            performed(s0, *s, dd),
            dd == head + spec_polls(CMNSR, t, k),
            waiting ==> k == TEND_TIMEOUT - n && (t & CMNSR_SSLF != 0 || k == 0),
            !waiting ==> k == if t & CMNSR_SSLF == 0 { 1 } else { TEND_TIMEOUT + 1 },
        decreases n + if waiting { 1int } else { 0int },
    {
        let (v, Ghost(e)) = r32(s, CMNSR, Ghost(s0), Ghost(dd));
        proof {
            lemma_polls_push(CMNSR, t, k);
            dd = e;
            k = k + 1;
        }
        if v & CMNSR_SSLF == 0 {
            waiting = false;
        } else if n == 0 {
            waiting = false;
        } else {
            n = n - 1;
        }
    }
    assert(dd =~= done + spec_stop_ops(d, t));
    Ghost(dd)
}

/// The accesses of [`to_manual`] given CMNCR `c`, DRCR `d` and CMNSR `t`.
pub open spec fn spec_to_manual_ops(c: u32, d: u32, t: u32) -> Seq<Access> {
    if c & CMNCR_MD == 0 {
        seq![rd(CMNCR, c)] + spec_stop_ops(d, t) + seq![rd(CMNCR, c), wr(CMNCR, c | CMNCR_MD)]
    } else {
        seq![rd(CMNCR, c)]
    }
}

/// Enter manual SPI mode (set CMNCR.MD) unless already there, quiescing the
/// bus first.
fn to_manual(s: &mut Shadow, Ghost(s0): Ghost<Shadow>, Ghost(done): Ghost<Seq<Access>>) -> (r: Ghost<Seq<Access>>)
    requires
        performed(s0, *old(s), done),
    ensures
        ({
            let c = reg(old(s).mem(), CMNCR);
            let d = reg(old(s).mem(), DRCR);
            &&& r@ == done + spec_to_manual_ops(c, d, reg(old(s).mem(), CMNSR))
            &&& reg(final(s).mem(), CMNCR) == c | CMNCR_MD
            &&& reg(final(s).mem(), DRCR) == if c & CMNCR_MD == 0 { d | DRCR_SSLN } else { d }
        }),
        performed(s0, *final(s), r@),
        status_kept(*old(s), *final(s)),
{
    let ghost mem0 = s.mem();
    let (c, Ghost(d1)) = r32(s, CMNCR, Ghost(s0), Ghost(done));
    if c & CMNCR_MD == 0 {
        let Ghost(d2) = bus_stop(s, Ghost(s0), Ghost(d1));
        proof {
            lemma_put_reads(mem0, DRCR, reg(mem0, DRCR) | DRCR_SSLN);
        }
        let (c2, Ghost(d3)) = r32(s, CMNCR, Ghost(s0), Ghost(d2));
        let ghost mem2 = s.mem();
        let Ghost(d4) = put(s, CMNCR, c2 | CMNCR_MD, Ghost(s0), Ghost(d3));
        proof {
            lemma_put_reads(mem2, CMNCR, c2 | CMNCR_MD);
        }
        assert(d4 =~= done + spec_to_manual_ops(c, reg(mem0, DRCR), reg(mem0, CMNSR)));
        Ghost(d4)
    } else {
        assert(c | CMNCR_MD == c) by (bit_vector)
            requires
                c & CMNCR_MD != 0,
        ;
        assert(d1 =~= done + spec_to_manual_ops(c, reg(mem0, DRCR), reg(mem0, CMNSR)));
        Ghost(d1)
    }
}

/// The accesses of [`to_read_mode`] given CMNCR `c`, DRCR `d` and CMNSR
/// `t`: leave manual mode if in it, then flush the read cache and read DRCR
/// back.
pub open spec fn spec_to_read_mode_ops(c: u32, d: u32, t: u32) -> Seq<Access> {
    let d2 = if c & CMNCR_MD != 0 { d | DRCR_SSLN } else { d };
    let first = if c & CMNCR_MD != 0 {
        seq![rd(CMNCR, c)] + spec_stop_ops(d, t) + seq![rd(CMNCR, c), wr(CMNCR, c & !CMNCR_MD)]
    } else {
        seq![rd(CMNCR, c)]
    };
    first + seq![rd(DRCR, d2), wr(DRCR, d2 | DRCR_RCF), rd(DRCR, d2 | DRCR_RCF)]
}

/// Return to memory-mapped read mode (clear CMNCR.MD, quiescing the bus
/// first) and flush the read cache so reads see freshly written data.
fn to_read_mode(s: &mut Shadow, Ghost(s0): Ghost<Shadow>, Ghost(done): Ghost<Seq<Access>>) -> (r: Ghost<Seq<Access>>)
    requires
        performed(s0, *old(s), done),
    ensures
        ({
            let c = reg(old(s).mem(), CMNCR);
            let d = reg(old(s).mem(), DRCR);
            let d2 = if c & CMNCR_MD != 0 { d | DRCR_SSLN } else { d };
            &&& r@ == done + spec_to_read_mode_ops(c, d, reg(old(s).mem(), CMNSR))
            &&& reg(final(s).mem(), CMNCR) == c & !CMNCR_MD
            &&& reg(final(s).mem(), DRCR) == d2 | DRCR_RCF
        }),
        performed(s0, *final(s), r@),
        status_kept(*old(s), *final(s)),
{
    let ghost mem0 = s.mem();
    let (c, Ghost(d1)) = r32(s, CMNCR, Ghost(s0), Ghost(done));
    let ghost mut dd = d1;
    if c & CMNCR_MD != 0 {
        let Ghost(d2) = bus_stop(s, Ghost(s0), Ghost(d1));
        proof {
            lemma_put_reads(mem0, DRCR, reg(mem0, DRCR) | DRCR_SSLN);
        }
        let (c2, Ghost(d3)) = r32(s, CMNCR, Ghost(s0), Ghost(d2));
        let ghost mem2 = s.mem();
        let Ghost(d4) = put(s, CMNCR, c2 & !CMNCR_MD, Ghost(s0), Ghost(d3));
        proof {
            lemma_put_reads(mem2, CMNCR, c2 & !CMNCR_MD);
            dd = d4;
        }
    } else {
        assert(c & !CMNCR_MD == c) by (bit_vector)
            requires
                c & CMNCR_MD == 0,
        ;
    }
    let ghost mem3 = s.mem();
    let (d, Ghost(d5)) = r32(s, DRCR, Ghost(s0), Ghost(dd));
    let Ghost(d6) = put(s, DRCR, d | DRCR_RCF, Ghost(s0), Ghost(d5));
    proof {
        lemma_put_reads(mem3, DRCR, d | DRCR_RCF);
    }
    let (back, Ghost(d7)) = r32(s, DRCR, Ghost(s0), Ghost(d6));
    assert(d7 =~= done + spec_to_read_mode_ops(c, reg(mem0, DRCR), reg(mem0, CMNSR)));
    Ghost(d7)
}

/// The memory-mapped-mode registers read the same in `a` and `b`.
pub open spec fn mode_kept(a: Shadow, b: Shadow) -> bool {
    reg(a.mem(), CMNCR) == reg(b.mem(), CMNCR) && reg(a.mem(), DRCR) == reg(b.mem(), DRCR)
}

/// A manual transfer without read data: command, address, enable and
/// control registers, then the wait for its end.
pub open spec fn spec_cmd_ops(cmd: u32, addr: u32, enr: u32, smcr: u32, t: u32) -> Seq<Access> {
    seq![
        wr(SMCMR, cmd << 16u32),
        wr(SMADR, addr),
        wr(SMENR, enr),
        wr(SMCR, smcr),
    ] + spec_tend_ops(t)
}

fn command(
    s: &mut Shadow,
    cmd: u32,
    addr: u32,
    enr: u32,
    smcr: u32,
    Ghost(s0): Ghost<Shadow>,
    Ghost(done): Ghost<Seq<Access>>,
) -> (r: Ghost<Seq<Access>>)
    requires
        cmd <= 0xFF,
        performed(s0, *old(s), done),
    ensures
        r@ == done + spec_cmd_ops(cmd, addr, enr, smcr, reg(old(s).mem(), CMNSR)),
        performed(s0, *final(s), r@),
        status_kept(*old(s), *final(s)),
        mode_kept(*old(s), *final(s)),
{
    let ghost m0 = s.mem();
    let Ghost(d1) = put(s, SMCMR, cmd << 16, Ghost(s0), Ghost(done));
    let ghost m1 = s.mem();
    let Ghost(d2) = put(s, SMADR, addr, Ghost(s0), Ghost(d1));
    let ghost m2 = s.mem();
    let Ghost(d3) = put(s, SMENR, enr, Ghost(s0), Ghost(d2));
    let ghost m3 = s.mem();
    let Ghost(d4) = put(s, SMCR, smcr, Ghost(s0), Ghost(d3));
    proof {
        lemma_put_reads(m0, SMCMR, cmd << 16);
        lemma_put_reads(m1, SMADR, addr);
        lemma_put_reads(m2, SMENR, enr);
        lemma_put_reads(m3, SMCR, smcr);
    }
    let (_ended, Ghost(d5)) = wait_tend(s, Ghost(s0), Ghost(d4));
    assert(d5 =~= done + spec_cmd_ops(cmd, addr, enr, smcr, reg(m0, CMNSR)));
    Ghost(d5)
}

/// A manual transfer with read data: command, no address, enable, a zero
/// write-data word, start with read enabled, wait, then the read data
/// (`rdata`).
pub open spec fn spec_cmd_read_ops(cmd: u32, enr: u32, t: u32, rdata: u32) -> Seq<Access> {
    seq![
        wr(SMCMR, cmd << 16u32),
        wr(SMADR, 0),
        wr(SMENR, enr),
        wr(SMWDR0, 0),
        wr(SMCR, SMCR_SPIE | SMCR_SPIRE),
    ] + spec_tend_ops(t) + seq![rd(SMRDR0, rdata)]
}

fn command_read(
    s: &mut Shadow,
    cmd: u32,
    enr: u32,
    Ghost(s0): Ghost<Shadow>,
    Ghost(done): Ghost<Seq<Access>>,
) -> (r: (u32, Ghost<Seq<Access>>))
    requires
        cmd <= 0xFF,
        performed(s0, *old(s), done),
    ensures
        r.0 == reg(old(s).mem(), SMRDR0),
        r.1@ == done + spec_cmd_read_ops(cmd, enr, reg(old(s).mem(), CMNSR), r.0),
        performed(s0, *final(s), r.1@),
        status_kept(*old(s), *final(s)),
        mode_kept(*old(s), *final(s)),
{
    let ghost m0 = s.mem();
    let Ghost(d1) = put(s, SMCMR, cmd << 16, Ghost(s0), Ghost(done));
    let ghost m1 = s.mem();
    let Ghost(d2) = put(s, SMADR, 0, Ghost(s0), Ghost(d1));
    let ghost m2 = s.mem();
    let Ghost(d3) = put(s, SMENR, enr, Ghost(s0), Ghost(d2));
    let ghost m3 = s.mem();
    let Ghost(d4) = put(s, SMWDR0, 0, Ghost(s0), Ghost(d3));
    let ghost m4 = s.mem();
    let Ghost(d5) = put(s, SMCR, SMCR_SPIE | SMCR_SPIRE, Ghost(s0), Ghost(d4));
    proof {
        lemma_put_reads(m0, SMCMR, cmd << 16);
        lemma_put_reads(m1, SMADR, 0);
        lemma_put_reads(m2, SMENR, enr);
        lemma_put_reads(m3, SMWDR0, 0);
        lemma_put_reads(m4, SMCR, SMCR_SPIE | SMCR_SPIRE);
    }
    let (_ended, Ghost(d6)) = wait_tend(s, Ghost(s0), Ghost(d5));
    let (v, Ghost(d7)) = r32(s, SMRDR0, Ghost(s0), Ghost(d6));
    assert(d7 =~= done + spec_cmd_read_ops(cmd, enr, reg(m0, CMNSR), v));
    (v, Ghost(d7))
}

/// The status byte in read data `rdata` (an 8-bit datum is MSB-aligned).
pub open spec fn spec_status_byte(rdata: u32) -> u32 {
    (rdata >> 24u32) & 0xFF
}

/// The accesses of one status read.
pub open spec fn spec_read_status_ops(t: u32, rdata: u32) -> Seq<Access> {
    spec_cmd_read_ops(CMD_RDSR, SMENR_CDE | SMENR_SPIDE_8, t, rdata)
}

/// `n` copies of `o`, one after another.
pub open spec fn spec_repeat(o: Seq<Access>, n: nat) -> Seq<Access>
    decreases n,
{
    if n == 0 { Seq::empty() } else { spec_repeat(o, (n - 1) as nat) + o }
}

/// The accesses of [`wait_wip`] and its result, given CMNSR `t` and read
/// data `rdata`: one status read when the part reports an erase / program
/// error (false) or is idle (true); otherwise `WIP_TIMEOUT + 1` reads and
/// false.
pub open spec fn spec_wip(t: u32, rdata: u32) -> (Seq<Access>, bool) {
    let sr = spec_status_byte(rdata);
    let o = spec_read_status_ops(t, rdata);
    if sr & (SR_E_ERR | SR_P_ERR) != 0 {
        (o, false)
    } else if sr & SR_WIP == 0 {
        (o, true)
    } else {
        (spec_repeat(o, WIP_TIMEOUT as nat + 1), false)
    }
}

/// Read the status register until the part is idle (`true`), reports a
/// rejected erase / program, or `WIP_TIMEOUT` further reads pass (`false`).
fn wait_wip(s: &mut Shadow, Ghost(s0): Ghost<Shadow>, Ghost(done): Ghost<Seq<Access>>) -> (r: (bool, Ghost<Seq<Access>>))
    requires
        performed(s0, *old(s), done),
    ensures
        ({
            let (ops, ok) = spec_wip(reg(old(s).mem(), CMNSR), reg(old(s).mem(), SMRDR0));
            &&& r.0 == ok
            &&& r.1@ == done + ops
        }),
        performed(s0, *final(s), r.1@),
        status_kept(*old(s), *final(s)),
        mode_kept(*old(s), *final(s)),
{
    let ghost t = reg(s.mem(), CMNSR);
    let ghost rd0 = reg(s.mem(), SMRDR0);
    let ghost o = spec_read_status_ops(t, rd0);
    let ghost cm = reg(s.mem(), CMNCR);
    let ghost dr = reg(s.mem(), DRCR);
    let mut n: u32 = WIP_TIMEOUT;
    let ghost mut dd = done;
    assert(dd =~= done + spec_repeat(o, 0));
    loop
        invariant
            n <= WIP_TIMEOUT,
            t == reg(old(s).mem(), CMNSR),
            rd0 == reg(old(s).mem(), SMRDR0),
            cm == reg(old(s).mem(), CMNCR),
            dr == reg(old(s).mem(), DRCR),
            o == spec_read_status_ops(t, rd0),
            reg(s.mem(), CMNSR) == t,
            reg(s.mem(), SMRDR0) == rd0,
            reg(s.mem(), CMNCR) == cm,
            reg(s.mem(), DRCR) == dr,
            performed(s0, *s, dd),
            dd == done + spec_repeat(o, (WIP_TIMEOUT - n) as nat),
            n < WIP_TIMEOUT ==> spec_status_byte(rd0) & (SR_E_ERR | SR_P_ERR) == 0
                && spec_status_byte(rd0) & SR_WIP != 0,
        decreases n,
    {
        let (v, Ghost(d2)) = command_read(s, CMD_RDSR, SMENR_CDE | SMENR_SPIDE_8, Ghost(s0), Ghost(dd));
        let sr = (v >> 24) & 0xFF;
        proof {
            assert(d2 =~= done + spec_repeat(o, (WIP_TIMEOUT - n + 1) as nat));
        }
        if sr & (SR_E_ERR | SR_P_ERR) != 0 {
            return (false, Ghost(d2));
        }
        if sr & SR_WIP == 0 {
            return (true, Ghost(d2));
        }
        if n == 0 {
            return (false, Ghost(d2));
        }
        n = n - 1;
        proof {
            dd = d2;
        }
    }
}

/// The write guard: the windows and the chip bound on the normal path
/// (`Some`), the chip bound alone on the forced path (`None`).
pub open spec fn spec_guard(offset: u32, len: u32, windows: Option<Seq<Window>>, cap: u32) -> bool {
    match windows {
        Some(w) => spec_within_windows(offset, len, w) && spec_in_chip(offset, len, cap),
        None => spec_in_chip(offset, len, cap),
    }
}

/// The windows a guard is given, as values.
pub open spec fn windows_view(windows: Option<&[Window]>) -> Option<Seq<Window>> {
    match windows {
        Some(w) => Some(w@),
        None => None,
    }
}

/// The recovery after a rejected erase / program: clear the status
/// register's latched error bits.
pub open spec fn spec_clear_status_ops(t: u32) -> Seq<Access> {
    spec_cmd_ops(CMD_CLEAR_STATUS, 0, SMENR_CDE, SMCR_SPIE, t)
}

/// Waiting for the part after an erase / program, and clearing its status
/// when the wait failed.
pub open spec fn spec_finish_ops(t: u32, rdata: u32) -> Seq<Access> {
    let (w, ok) = spec_wip(t, rdata);
    w + if ok { Seq::empty() } else { spec_clear_status_ops(t) }
}

/// Write enable.
pub open spec fn spec_write_enable_ops(t: u32) -> Seq<Access> {
    spec_cmd_ops(CMD_WREN, 0, SMENR_CDE, SMCR_SPIE, t)
}

/// The accesses of [`erase_sector_at`]: nothing when the guard refuses the
/// block; otherwise write enable, block erase at `offset`, the wait, and the
/// recovery if the wait failed.
pub open spec fn spec_erase_at_ops(
    offset: u32,
    sector_size: u32,
    windows: Option<Seq<Window>>,
    cap: u32,
    t: u32,
    rdata: u32,
) -> Seq<Access> {
    if !spec_guard(offset, sector_size, windows, cap) {
        Seq::empty()
    } else {
        spec_write_enable_ops(t) + spec_cmd_ops(
            CMD_SECTOR_ERASE,
            offset,
            SMENR_CDE | SMENR_ADE_3B,
            SMCR_SPIE,
            t,
        ) + spec_finish_ops(t, rdata)
    }
}

fn finish(s: &mut Shadow, Ghost(s0): Ghost<Shadow>, Ghost(done): Ghost<Seq<Access>>) -> (r: Ghost<Seq<Access>>)
    requires
        performed(s0, *old(s), done),
    ensures
        r@ == done + spec_finish_ops(reg(old(s).mem(), CMNSR), reg(old(s).mem(), SMRDR0)),
        performed(s0, *final(s), r@),
        status_kept(*old(s), *final(s)),
        mode_kept(*old(s), *final(s)),
{
    let ghost m0 = s.mem();
    let (ok, Ghost(d1)) = wait_wip(s, Ghost(s0), Ghost(done));
    if !ok {
        let Ghost(d2) = command(s, CMD_CLEAR_STATUS, 0, SMENR_CDE, SMCR_SPIE, Ghost(s0), Ghost(d1));
        assert(d2 =~= done + spec_finish_ops(reg(m0, CMNSR), reg(m0, SMRDR0)));
        Ghost(d2)
    } else {
        assert(d1 =~= done + spec_finish_ops(reg(m0, CMNSR), reg(m0, SMRDR0)));
        Ghost(d1)
    }
}

/// Erase the `sector_size`-byte block at `offset` (manual mode already on),
/// if the guard allows it; the single choke point of every erase.
fn erase_sector_at(
    s: &mut Shadow,
    offset: u32,
    sector_size: u32,
    windows: Option<&[Window]>,
    cap: u32,
    Ghost(s0): Ghost<Shadow>,
    Ghost(done): Ghost<Seq<Access>>,
) -> (r: Ghost<Seq<Access>>)
    requires
        performed(s0, *old(s), done),
    ensures
        r@ == done + spec_erase_at_ops(
            offset,
            sector_size,
            windows_view(windows),
            cap,
            reg(old(s).mem(), CMNSR),
            reg(old(s).mem(), SMRDR0),
        ),
        performed(s0, *final(s), r@),
        status_kept(*old(s), *final(s)),
        mode_kept(*old(s), *final(s)),
{
    let ghost m0 = s.mem();
    if !guard(offset, sector_size, windows, cap) {
        assert(done =~= done + Seq::<Access>::empty());
        return Ghost(done);
    }
    let Ghost(d1) = command(s, CMD_WREN, 0, SMENR_CDE, SMCR_SPIE, Ghost(s0), Ghost(done));
    let Ghost(d2) = command(
        s,
        CMD_SECTOR_ERASE,
        offset,
        SMENR_CDE | SMENR_ADE_3B,
        SMCR_SPIE,
        Ghost(s0),
        Ghost(d1),
    );
    let Ghost(d3) = finish(s, Ghost(s0), Ghost(d2));
    assert(d3 =~= done + spec_erase_at_ops(
        offset,
        sector_size,
        windows_view(windows),
        cap,
        reg(m0, CMNSR),
        reg(m0, SMRDR0),
    ));
    Ghost(d3)
}

/// One data transfer of a page program.
pub open spec fn spec_unit_ops(u: DataUnit, t: u32) -> Seq<Access> {
    seq![wr(SMCMR, 0), wr(SMWDR0, u.val), wr(SMENR, u.spide), wr(SMCR, u.smcr)] + spec_tend_ops(t)
}

/// The data transfers `units`, in order.
pub open spec fn spec_units_ops(units: Seq<DataUnit>, t: u32) -> Seq<Access>
    decreases units.len(),
{
    if units.len() == 0 {
        Seq::empty()
    } else {
        spec_units_ops(units.drop_last(), t) + spec_unit_ops(units.last(), t)
    }
}

/// The accesses of [`program_page_manual`]: nothing for empty data or when
/// the guard refuses the range; otherwise write enable, the page-program
/// command at `offset` (chip select kept), the data transfers, the wait,
/// and the recovery if the wait failed.
pub open spec fn spec_program_at_ops(
    offset: u32,
    data: Seq<u8>,
    windows: Option<Seq<Window>>,
    cap: u32,
    t: u32,
    rdata: u32,
) -> Seq<Access> {
    if data.len() == 0 || !spec_guard(offset, data.len() as u32, windows, cap) {
        Seq::empty()
    } else {
        spec_write_enable_ops(t) + spec_cmd_ops(
            CMD_PP,
            offset,
            SMENR_CDE | SMENR_ADE_3B,
            SMCR_SPIE | SMCR_SSLKP,
            t,
        ) + spec_units_ops(spec_units(data, 0), t) + spec_finish_ops(t, rdata)
    }
}

/// Program `data` (within one page) at `offset` with manual mode already on,
/// if the guard allows it; the single choke point of every program. Data
/// goes out 32, 16 or 8 bits at a time, MSB-aligned, the chip select kept
/// asserted until the last unit.
fn program_page_manual(
    s: &mut Shadow,
    offset: u32,
    data: &[u8],
    windows: Option<&[Window]>,
    cap: u32,
    Ghost(s0): Ghost<Shadow>,
    Ghost(done): Ghost<Seq<Access>>,
) -> (r: Ghost<Seq<Access>>)
    requires
        performed(s0, *old(s), done),
    ensures
        r@ == done + spec_program_at_ops(
            offset,
            data@,
            windows_view(windows),
            cap,
            reg(old(s).mem(), CMNSR),
            reg(old(s).mem(), SMRDR0),
        ),
        performed(s0, *final(s), r@),
        status_kept(*old(s), *final(s)),
        mode_kept(*old(s), *final(s)),
{
    let ghost m0 = s.mem();
    let ghost t = reg(m0, CMNSR);
    if data.len() == 0 {
        assert(done =~= done + Seq::<Access>::empty());
        return Ghost(done);
    }
    if !guard(offset, data.len() as u32, windows, cap) {
        assert(done =~= done + Seq::<Access>::empty());
        return Ghost(done);
    }
    let Ghost(d1) = command(s, CMD_WREN, 0, SMENR_CDE, SMCR_SPIE, Ghost(s0), Ghost(done));
    let Ghost(d2) = command(
        s,
        CMD_PP,
        offset,
        SMENR_CDE | SMENR_ADE_3B,
        SMCR_SPIE | SMCR_SSLKP,
        Ghost(s0),
        Ghost(d1),
    );
    let units = page_units(data);
    let ghost head = d2;
    let ghost mut dd = d2;
    let mut i: usize = 0;
    assert(units@.take(0) =~= Seq::<DataUnit>::empty());
    assert(dd =~= head + spec_units_ops(units@.take(0), t));
    while i < units.len()
        invariant
            i <= units@.len(),
            t == reg(m0, CMNSR),
            reg(s.mem(), CMNSR) == t,
            reg(s.mem(), SMRDR0) == reg(m0, SMRDR0),
            reg(s.mem(), CMNCR) == reg(m0, CMNCR),
            reg(s.mem(), DRCR) == reg(m0, DRCR),
            performed(s0, *s, dd),
            dd == head + spec_units_ops(units@.take(i as int), t),
        decreases units@.len() - i,
    {
        let u = units[i];
        let ghost ma = s.mem();
        let Ghost(e1) = put(s, SMCMR, 0, Ghost(s0), Ghost(dd));
        let ghost mb = s.mem();
        let Ghost(e2) = put(s, SMWDR0, u.val, Ghost(s0), Ghost(e1));
        let ghost mc = s.mem();
        let Ghost(e3) = put(s, SMENR, u.spide, Ghost(s0), Ghost(e2));
        let ghost md = s.mem();
        let Ghost(e4) = put(s, SMCR, u.smcr, Ghost(s0), Ghost(e3));
        proof {
            lemma_put_reads(ma, SMCMR, 0);
            lemma_put_reads(mb, SMWDR0, u.val);
            lemma_put_reads(mc, SMENR, u.spide);
            lemma_put_reads(md, SMCR, u.smcr);
        }
        let (_ended, Ghost(e5)) = wait_tend(s, Ghost(s0), Ghost(e4));
        proof {
            assert(units@.take(i + 1).drop_last() =~= units@.take(i as int));
            assert(units@.take(i + 1).last() == u);
            assert(e5 =~= head + spec_units_ops(units@.take(i + 1), t));
            dd = e5;
        }
        i += 1;
    }
    assert(units@.take(units@.len() as int) =~= units@);
    let Ghost(d4) = finish(s, Ghost(s0), Ghost(dd));
    assert(d4 =~= done + spec_program_at_ops(
        offset,
        data@,
        windows_view(windows),
        cap,
        t,
        reg(m0, SMRDR0),
    ));
    Ghost(d4)
}

/// CMNCR and DRCR after entering manual mode from `c`, `d`.
pub open spec fn spec_manual_regs(c: u32, d: u32) -> (u32, u32) {
    (c | CMNCR_MD, if c & CMNCR_MD == 0 { d | DRCR_SSLN } else { d })
}

/// CMNCR and DRCR after returning to read mode from `c`, `d`.
pub open spec fn spec_read_mode_regs(c: u32, d: u32) -> (u32, u32) {
    (c & !CMNCR_MD, (if c & CMNCR_MD != 0 { d | DRCR_SSLN } else { d }) | DRCR_RCF)
}

/// A manual-mode window around `middle`: enter manual mode, `middle`, back
/// to read mode.
pub open spec fn spec_window_ops(c: u32, d: u32, t: u32, middle: Seq<Access>) -> Seq<Access> {
    let (c1, d1) = spec_manual_regs(c, d);
    spec_to_manual_ops(c, d, t) + middle + spec_to_read_mode_ops(c1, d1, t)
}

/// CMNCR and DRCR after a manual-mode window.
pub open spec fn spec_window_regs(c: u32, d: u32) -> (u32, u32) {
    let (c1, d1) = spec_manual_regs(c, d);
    spec_read_mode_regs(c1, d1)
}

/// The accesses of [`read_id`] from CMNCR `c`, DRCR `d`, CMNSR `t` and read
/// data `rdata`.
pub open spec fn spec_read_id_ops(c: u32, d: u32, t: u32, rdata: u32) -> Seq<Access> {
    spec_window_ops(c, d, t, spec_cmd_read_ops(CMD_RDID, SMENR_CDE | SMENR_SPIDE_32, t, rdata))
}

/// The JEDEC ID in read data `rdata`: its three low bytes in wire order.
pub open spec fn spec_id_bytes(rdata: u32) -> Seq<u8> {
    seq![rdata as u8, (rdata >> 8u32) as u8, (rdata >> 16u32) as u8]
}

/// The manual-mode window, extending a run of accesses.
fn window_end(s: &mut Shadow, Ghost(s0): Ghost<Shadow>, Ghost(done): Ghost<Seq<Access>>, Ghost(c): Ghost<u32>, Ghost(d): Ghost<u32>) -> (r: Ghost<Seq<Access>>)
    requires
        performed(s0, *old(s), done),
        reg(old(s).mem(), CMNCR) == spec_manual_regs(c, d).0,
        reg(old(s).mem(), DRCR) == spec_manual_regs(c, d).1,
    ensures
        r@ == done + spec_to_read_mode_ops(
            spec_manual_regs(c, d).0,
            spec_manual_regs(c, d).1,
            reg(old(s).mem(), CMNSR),
        ),
        performed(s0, *final(s), r@),
        status_kept(*old(s), *final(s)),
        reg(final(s).mem(), CMNCR) == spec_window_regs(c, d).0,
        reg(final(s).mem(), DRCR) == spec_window_regs(c, d).1,
{
    to_read_mode(s, Ghost(s0), Ghost(done))
}

/// Read the 3-byte JEDEC ID (manufacturer, memory type, density) in a
/// manual-mode window: one 32-bit read, whose three low bytes are the ID in
/// wire order.
pub fn read_id(s: &mut Shadow) -> (id: [u8; 3])
    ensures
        ({
            let m = old(s).mem();
            let rdata = reg(m, SMRDR0);
            &&& id@ == spec_id_bytes(rdata)
            &&& performed(
                *old(s),
                *final(s),
                spec_read_id_ops(reg(m, CMNCR), reg(m, DRCR), reg(m, CMNSR), rdata),
            )
            &&& status_kept(*old(s), *final(s))
            &&& reg(final(s).mem(), CMNCR) == spec_window_regs(reg(m, CMNCR), reg(m, DRCR)).0
            &&& reg(final(s).mem(), DRCR) == spec_window_regs(reg(m, CMNCR), reg(m, DRCR)).1
        }),
{
    let ghost s0 = *s;
    let ghost c = reg(s.mem(), CMNCR);
    let ghost d = reg(s.mem(), DRCR);
    let ghost t = reg(s.mem(), CMNSR);
    proof {
        crate::mmio::lemma_performed_nothing(s0);
    }
    let Ghost(d1) = to_manual(s, Ghost(s0), Ghost(Seq::empty()));
    let (v, Ghost(d2)) = command_read(s, CMD_RDID, SMENR_CDE | SMENR_SPIDE_32, Ghost(s0), Ghost(d1));
    let Ghost(d3) = window_end(s, Ghost(s0), Ghost(d2), Ghost(c), Ghost(d));
    assert(d3 =~= spec_read_id_ops(c, d, t, v));
    let id = [v as u8, (v >> 8) as u8, (v >> 16) as u8];
    assert(id@ =~= spec_id_bytes(v));
    id
}

/// The accesses of [`read_status_reg`].
pub open spec fn spec_read_status_reg_ops(c: u32, d: u32, t: u32, rdata: u32) -> Seq<Access> {
    spec_window_ops(c, d, t, spec_read_status_ops(t, rdata))
}

/// Read the flash status register once, in a manual-mode window.
pub fn read_status_reg(s: &mut Shadow) -> (sr: u8)
    ensures
        ({
            let m = old(s).mem();
            let rdata = reg(m, SMRDR0);
            &&& sr == spec_status_byte(rdata)
            &&& performed(
                *old(s),
                *final(s),
                spec_read_status_reg_ops(reg(m, CMNCR), reg(m, DRCR), reg(m, CMNSR), rdata),
            )
        }),
{
    let ghost s0 = *s;
    let ghost c = reg(s.mem(), CMNCR);
    let ghost d = reg(s.mem(), DRCR);
    let ghost t = reg(s.mem(), CMNSR);
    proof {
        crate::mmio::lemma_performed_nothing(s0);
    }
    let Ghost(d1) = to_manual(s, Ghost(s0), Ghost(Seq::empty()));
    let (v, Ghost(d2)) = command_read(s, CMD_RDSR, SMENR_CDE | SMENR_SPIDE_8, Ghost(s0), Ghost(d1));
    let Ghost(d3) = window_end(s, Ghost(s0), Ghost(d2), Ghost(c), Ghost(d));
    assert(d3 =~= spec_read_status_reg_ops(c, d, t, v));
    let sr = (v >> 24) & 0xFF;
    assert(sr <= 0xFF) by (bit_vector)
        requires
            sr == (v >> 24) & 0xFF,
    ;
    sr as u8
}

/// The capacity the chip-size cache gives: its value once probed, else the
/// size read from the JEDEC ID.
pub open spec fn spec_cap(cache: u32, rdata: u32) -> u32 {
    if cache != 0 {
        cache
    } else {
        let id = spec_id_bytes(rdata);
        if id[0] == 0x00 || id[0] == 0xFF || !(18 <= id[2] <= 26) {
            0
        } else {
            (1u32 << id[2] as u32)
        }
    }
}

/// The accesses of probing the chip size: none once cached, else a JEDEC ID
/// read.
pub open spec fn spec_cap_ops(cache: u32, c: u32, d: u32, t: u32, rdata: u32) -> Seq<Access> {
    if cache != 0 { Seq::empty() } else { spec_read_id_ops(c, d, t, rdata) }
}

/// CMNCR and DRCR after probing the chip size.
pub open spec fn spec_cap_regs(cache: u32, c: u32, d: u32) -> (u32, u32) {
    if cache != 0 { (c, d) } else { spec_window_regs(c, d) }
}

/// The usable flash size, probed once from the JEDEC ID and then kept in
/// `cache` (0 = not yet probed, or an implausible ID, which refuses every
/// write and is probed again next time).
pub fn chip_capacity(s: &mut Shadow, cache: &mut u32) -> (cap: u32)
    ensures
        ({
            let m = old(s).mem();
            let (c1, d1) = spec_cap_regs(*old(cache), reg(m, CMNCR), reg(m, DRCR));
            &&& cap == spec_cap(*old(cache), reg(m, SMRDR0))
            &&& *final(cache) == cap
            &&& performed(
                *old(s),
                *final(s),
                spec_cap_ops(*old(cache), reg(m, CMNCR), reg(m, DRCR), reg(m, CMNSR), reg(m, SMRDR0)),
            )
            &&& status_kept(*old(s), *final(s))
            &&& reg(final(s).mem(), CMNCR) == c1
            &&& reg(final(s).mem(), DRCR) == d1
        }),
{
    if *cache != 0 {
        proof {
            crate::mmio::lemma_performed_nothing(*s);
        }
        return *cache;
    }
    let id = read_id(s);
    let cap = capacity_from_id(id);
    *cache = cap;
    cap
}


/// The accesses of erasing `blocks`, in order.
pub open spec fn spec_erase_blocks_ops(
    blocks: Seq<u32>,
    sector_size: u32,
    windows: Option<Seq<Window>>,
    cap: u32,
    t: u32,
    rdata: u32,
) -> Seq<Access>
    decreases blocks.len(),
{
    if blocks.len() == 0 {
        Seq::empty()
    } else {
        spec_erase_blocks_ops(blocks.drop_last(), sector_size, windows, cap, t, rdata)
            + spec_erase_at_ops(blocks.last(), sector_size, windows, cap, t, rdata)
    }
}

fn erase_blocks(
    s: &mut Shadow,
    blocks: &Vec<u32>,
    sector_size: u32,
    windows: Option<&[Window]>,
    cap: u32,
    Ghost(s0): Ghost<Shadow>,
    Ghost(done): Ghost<Seq<Access>>,
) -> (r: Ghost<Seq<Access>>)
    requires
        performed(s0, *old(s), done),
    ensures
        r@ == done + spec_erase_blocks_ops(
            blocks@,
            sector_size,
            windows_view(windows),
            cap,
            reg(old(s).mem(), CMNSR),
            reg(old(s).mem(), SMRDR0),
        ),
        performed(s0, *final(s), r@),
        status_kept(*old(s), *final(s)),
        mode_kept(*old(s), *final(s)),
{
    let ghost m0 = s.mem();
    let ghost t = reg(m0, CMNSR);
    let ghost rdata = reg(m0, SMRDR0);
    let ghost w = windows_view(windows);
    let ghost mut dd = done;
    let mut i: usize = 0;
    assert(blocks@.take(0) =~= Seq::<u32>::empty());
    assert(dd =~= done + spec_erase_blocks_ops(blocks@.take(0), sector_size, w, cap, t, rdata));
    while i < blocks.len()
        invariant
            i <= blocks@.len(),
            w == windows_view(windows),
            reg(s.mem(), CMNSR) == t,
            reg(s.mem(), SMRDR0) == rdata,
            reg(s.mem(), CMNCR) == reg(m0, CMNCR),
            reg(s.mem(), DRCR) == reg(m0, DRCR),
            performed(s0, *s, dd),
            dd == done + spec_erase_blocks_ops(blocks@.take(i as int), sector_size, w, cap, t, rdata),
        decreases blocks@.len() - i,
    {
        let Ghost(d1) = erase_sector_at(s, blocks[i], sector_size, windows, cap, Ghost(s0), Ghost(dd));
        proof {
            assert(blocks@.take(i + 1).drop_last() =~= blocks@.take(i as int));
            assert(d1 =~= done + spec_erase_blocks_ops(blocks@.take(i + 1), sector_size, w, cap, t, rdata));
            dd = d1;
        }
        i += 1;
    }
    assert(blocks@.take(blocks@.len() as int) =~= blocks@);
    Ghost(dd)
}

/// The bytes of `data` that piece `c` writes.
pub open spec fn chunk_bytes(data: Seq<u8>, c: Chunk) -> Seq<u8> {
    data.subrange(c.start as int, c.start + c.len)
}

/// The accesses of programming the pieces `chunks` of `data`, in order.
pub open spec fn spec_chunks_ops(
    chunks: Seq<Chunk>,
    data: Seq<u8>,
    windows: Option<Seq<Window>>,
    cap: u32,
    t: u32,
    rdata: u32,
) -> Seq<Access>
    decreases chunks.len(),
{
    if chunks.len() == 0 {
        Seq::empty()
    } else {
        spec_chunks_ops(chunks.drop_last(), data, windows, cap, t, rdata) + spec_program_at_ops(
            chunks.last().addr,
            chunk_bytes(data, chunks.last()),
            windows,
            cap,
            t,
            rdata,
        )
    }
}

fn program_chunks(
    s: &mut Shadow,
    data: &[u8],
    chunks: &Vec<Chunk>,
    windows: Option<&[Window]>,
    cap: u32,
    Ghost(s0): Ghost<Shadow>,
    Ghost(done): Ghost<Seq<Access>>,
) -> (r: Ghost<Seq<Access>>)
    requires
        performed(s0, *old(s), done),
        forall|k: int|
            0 <= k < chunks@.len() ==> (#[trigger] chunks@[k]).start + chunks@[k].len
                <= data@.len(),
    ensures
        r@ == done + spec_chunks_ops(
            chunks@,
            data@,
            windows_view(windows),
            cap,
            reg(old(s).mem(), CMNSR),
            reg(old(s).mem(), SMRDR0),
        ),
        performed(s0, *final(s), r@),
        status_kept(*old(s), *final(s)),
        mode_kept(*old(s), *final(s)),
{
    let ghost m0 = s.mem();
    let ghost t = reg(m0, CMNSR);
    let ghost rdata = reg(m0, SMRDR0);
    let ghost w = windows_view(windows);
    let ghost mut dd = done;
    let mut i: usize = 0;
    assert(chunks@.take(0) =~= Seq::<Chunk>::empty());
    assert(dd =~= done + spec_chunks_ops(chunks@.take(0), data@, w, cap, t, rdata));
    while i < chunks.len()
        invariant
            i <= chunks@.len(),
            w == windows_view(windows),
            forall|k: int|
                0 <= k < chunks@.len() ==> (#[trigger] chunks@[k]).start + chunks@[k].len
                    <= data@.len(),
            reg(s.mem(), CMNSR) == t,
            reg(s.mem(), SMRDR0) == rdata,
            reg(s.mem(), CMNCR) == reg(m0, CMNCR),
            reg(s.mem(), DRCR) == reg(m0, DRCR),
            performed(s0, *s, dd),
            dd == done + spec_chunks_ops(chunks@.take(i as int), data@, w, cap, t, rdata),
        decreases chunks@.len() - i,
    {
        let c = chunks[i];
        assert(chunks@[i as int] == c);
        let n = data.len();
        assert(c.start + c.len <= n);
        let piece = vstd::slice::slice_subrange(data, c.start, c.start + c.len);
        let Ghost(d1) = program_page_manual(s, c.addr, piece, windows, cap, Ghost(s0), Ghost(dd));
        proof {
            assert(chunks@.take(i + 1).drop_last() =~= chunks@.take(i as int));
            assert(chunks@.take(i + 1).last() == c);
            assert(piece@ == chunk_bytes(data@, c));
            assert(d1 =~= done + spec_chunks_ops(chunks@.take(i + 1), data@, w, cap, t, rdata));
            dd = d1;
        }
        i += 1;
    }
    assert(chunks@.take(chunks@.len() as int) =~= chunks@);
    Ghost(dd)
}

/// The accesses of a whole write run from registers `m` and chip-size cache
/// `cache`: the chip-size probe, then a manual-mode window around `middle`.
pub open spec fn spec_run_ops(cache: u32, m: Map<usize, u8>, middle: Seq<Access>) -> Seq<Access> {
    let c = reg(m, CMNCR);
    let d = reg(m, DRCR);
    let t = reg(m, CMNSR);
    let (c1, d1) = spec_cap_regs(cache, c, d);
    spec_cap_ops(cache, c, d, t, reg(m, SMRDR0)) + spec_window_ops(c1, d1, t, middle)
}

/// The capacity a write run guards with.
pub open spec fn run_cap(cache: u32, m: Map<usize, u8>) -> u32 {
    spec_cap(cache, reg(m, SMRDR0))
}

/// Erase `blocks` in one manual-mode window after probing the chip size.
fn erase_run(
    s: &mut Shadow,
    cache: &mut u32,
    blocks: &Vec<u32>,
    sector_size: u32,
    windows: Option<&[Window]>,
)
    ensures
        ({
            let m = old(s).mem();
            let cap = run_cap(*old(cache), m);
            &&& *final(cache) == cap
            &&& performed(
                *old(s),
                *final(s),
                spec_run_ops(
                    *old(cache),
                    m,
                    spec_erase_blocks_ops(
                        blocks@,
                        sector_size,
                        windows_view(windows),
                        cap,
                        reg(m, CMNSR),
                        reg(m, SMRDR0),
                    ),
                ),
            )
        }),
{
    let ghost s0 = *s;
    let ghost m = s.mem();
    let ghost c = reg(m, CMNCR);
    let ghost d = reg(m, DRCR);
    let ghost t = reg(m, CMNSR);
    let ghost cache0 = *cache;
    let cap = chip_capacity(s, cache);
    let ghost d0 = spec_cap_ops(cache0, c, d, t, reg(m, SMRDR0));
    let ghost (c1, dr1) = spec_cap_regs(cache0, c, d);
    let Ghost(d1) = to_manual(s, Ghost(s0), Ghost(d0));
    let Ghost(d2) = erase_blocks(s, blocks, sector_size, windows, cap, Ghost(s0), Ghost(d1));
    let Ghost(d3) = window_end(s, Ghost(s0), Ghost(d2), Ghost(c1), Ghost(dr1));
    assert(d3 =~= spec_run_ops(
        cache0,
        m,
        spec_erase_blocks_ops(blocks@, sector_size, windows_view(windows), cap, t, reg(m, SMRDR0)),
    ));
}

/// Program `data` at `offset` cut into `page`-bounded pieces, in one
/// manual-mode window after probing the chip size.
fn program_run(
    s: &mut Shadow,
    cache: &mut u32,
    offset: u32,
    data: &[u8],
    page: usize,
    windows: Option<&[Window]>,
)
    requires
        page > 0,
        offset + data@.len() <= u32::MAX,
    ensures
        ({
            let m = old(s).mem();
            let cap = run_cap(*old(cache), m);
            &&& *final(cache) == cap
            &&& performed(
                *old(s),
                *final(s),
                spec_run_ops(
                    *old(cache),
                    m,
                    spec_chunks_ops(
                        spec_chunks(offset, 0, data@.len() as int, page),
                        data@,
                        windows_view(windows),
                        cap,
                        reg(m, CMNSR),
                        reg(m, SMRDR0),
                    ),
                ),
            )
        }),
{
    let ghost s0 = *s;
    let ghost m = s.mem();
    let ghost c = reg(m, CMNCR);
    let ghost d = reg(m, DRCR);
    let ghost t = reg(m, CMNSR);
    let ghost cache0 = *cache;
    let chunks = program_plan(offset, data.len(), page);
    proof {
        lemma_chunks_in_range(offset, 0, data@.len() as int, page);
    }
    let cap = chip_capacity(s, cache);
    let ghost d0 = spec_cap_ops(cache0, c, d, t, reg(m, SMRDR0));
    let ghost (c1, dr1) = spec_cap_regs(cache0, c, d);
    let Ghost(d1) = to_manual(s, Ghost(s0), Ghost(d0));
    let Ghost(d2) = program_chunks(s, data, &chunks, windows, cap, Ghost(s0), Ghost(d1));
    let Ghost(d3) = window_end(s, Ghost(s0), Ghost(d2), Ghost(c1), Ghost(dr1));
    assert(d3 =~= spec_run_ops(
        cache0,
        m,
        spec_chunks_ops(chunks@, data@, windows_view(windows), cap, t, reg(m, SMRDR0)),
    ));
}

impl FlashMap {
    /// Erase the erase block holding `offset` (flash-relative), if the
    /// writable windows and the chip size allow it. Probes the chip size
    /// first (into `cache`), then works in one manual-mode window.
    pub fn erase_sector(&self, s: &mut Shadow, cache: &mut u32, offset: u32)
        requires
            self.sector_size > 0,
        ensures
            ({
                let m = old(s).mem();
                let cap = run_cap(*old(cache), m);
                &&& *final(cache) == cap
                &&& performed(
                    *old(s),
                    *final(s),
                    spec_run_ops(
                        *old(cache),
                        m,
                        spec_erase_at_ops(
                            spec_sector_floor(offset, self.sector_size),
                            self.sector_size,
                            Some(self.writable@),
                            cap,
                            reg(m, CMNSR),
                            reg(m, SMRDR0),
                        ),
                    ),
                )
            }),
    {
        let ghost m = s.mem();
        let blocks = vec![offset & !(self.sector_size - 1)];
        erase_run(s, cache, &blocks, self.sector_size, Some(self.writable.as_slice()));
        proof {
            let cap = run_cap(*old(cache), m);
            let w = Some(self.writable@);
            reveal_with_fuel(spec_erase_blocks_ops, 2);
            assert(blocks@.drop_last() =~= Seq::<u32>::empty());
            assert(spec_erase_blocks_ops(blocks@, self.sector_size, w, cap, reg(m, CMNSR), reg(m, SMRDR0))
                =~= spec_erase_at_ops(blocks@[0], self.sector_size, w, cap, reg(m, CMNSR), reg(m, SMRDR0)));
        }
    }

    /// Erase every erase block touched by `[offset, offset + len)`
    /// (flash-relative), each only if the writable windows and the chip
    /// size allow it.
    pub fn erase_range(&self, s: &mut Shadow, cache: &mut u32, offset: u32, len: u32)
        requires
            self.sector_size > 0,
            offset + len <= u32::MAX,
            steps_fit(
                spec_sector_floor(offset, self.sector_size) as int,
                offset + len,
                self.sector_size as int,
            ),
        ensures
            ({
                let m = old(s).mem();
                let cap = run_cap(*old(cache), m);
                &&& *final(cache) == cap
                &&& performed(
                    *old(s),
                    *final(s),
                    spec_run_ops(
                        *old(cache),
                        m,
                        spec_erase_blocks_ops(
                            spec_block_addrs(
                                spec_sector_floor(offset, self.sector_size) as int,
                                offset + len,
                                self.sector_size as int,
                            ),
                            self.sector_size,
                            Some(self.writable@),
                            cap,
                            reg(m, CMNSR),
                            reg(m, SMRDR0),
                        ),
                    ),
                )
            }),
    {
        let blocks = erase_plan(offset, len, self.sector_size);
        erase_run(s, cache, &blocks, self.sector_size, Some(self.writable.as_slice()));
    }

    /// Program `data` (within one page) at `offset` (flash-relative), if the
    /// writable windows and the chip size allow it.
    pub fn program_page(&self, s: &mut Shadow, cache: &mut u32, offset: u32, data: &[u8])
        ensures
            ({
                let m = old(s).mem();
                let cap = run_cap(*old(cache), m);
                &&& *final(cache) == cap
                &&& performed(
                    *old(s),
                    *final(s),
                    spec_run_ops(
                        *old(cache),
                        m,
                        spec_program_at_ops(
                            offset,
                            data@,
                            Some(self.writable@),
                            cap,
                            reg(m, CMNSR),
                            reg(m, SMRDR0),
                        ),
                    ),
                )
            }),
    {
        let ghost s0 = *s;
        let ghost m = s.mem();
        let ghost c = reg(m, CMNCR);
        let ghost d = reg(m, DRCR);
        let ghost t = reg(m, CMNSR);
        let ghost cache0 = *cache;
        let cap = chip_capacity(s, cache);
        let ghost d0 = spec_cap_ops(cache0, c, d, t, reg(m, SMRDR0));
        let ghost (c1, dr1) = spec_cap_regs(cache0, c, d);
        let Ghost(d1) = to_manual(s, Ghost(s0), Ghost(d0));
        let Ghost(d2) = program_page_manual(
            s,
            offset,
            data,
            Some(self.writable.as_slice()),
            cap,
            Ghost(s0),
            Ghost(d1),
        );
        let Ghost(d3) = window_end(s, Ghost(s0), Ghost(d2), Ghost(c1), Ghost(dr1));
        assert(d3 =~= spec_run_ops(
            cache0,
            m,
            spec_program_at_ops(offset, data@, Some(self.writable@), cap, t, reg(m, SMRDR0)),
        ));
    }

    /// Program `data` at `offset` (flash-relative), cut into pieces that end
    /// at page boundaries; each piece is written only if the writable windows
    /// and the chip size allow it.
    pub fn program(&self, s: &mut Shadow, cache: &mut u32, offset: u32, data: &[u8])
        requires
            self.page > 0,
            offset + data@.len() <= u32::MAX,
        ensures
            ({
                let m = old(s).mem();
                let cap = run_cap(*old(cache), m);
                &&& *final(cache) == cap
                &&& performed(
                    *old(s),
                    *final(s),
                    spec_run_ops(
                        *old(cache),
                        m,
                        spec_chunks_ops(
                            spec_chunks(offset, 0, data@.len() as int, self.page),
                            data@,
                            Some(self.writable@),
                            cap,
                            reg(m, CMNSR),
                            reg(m, SMRDR0),
                        ),
                    ),
                )
            }),
    {
        program_run(s, cache, offset, data, self.page, Some(self.writable.as_slice()));
    }
}

/// Erase every `sector_size` block touched by `[offset, offset + len)`
/// (flash-relative) with the chip-size bound alone guarding it: the
/// recovery path that may rewrite the protected boot regions.
pub fn force_erase_range(s: &mut Shadow, cache: &mut u32, offset: u32, len: u32, sector_size: u32)
    requires
        sector_size > 0,
        offset + len <= u32::MAX,
        steps_fit(spec_sector_floor(offset, sector_size) as int, offset + len, sector_size as int),
    ensures
        ({
            let m = old(s).mem();
            let cap = run_cap(*old(cache), m);
            &&& *final(cache) == cap
            &&& performed(
                *old(s),
                *final(s),
                spec_run_ops(
                    *old(cache),
                    m,
                    spec_erase_blocks_ops(
                        spec_block_addrs(
                            spec_sector_floor(offset, sector_size) as int,
                            offset + len,
                            sector_size as int,
                        ),
                        sector_size,
                        None,
                        cap,
                        reg(m, CMNSR),
                        reg(m, SMRDR0),
                    ),
                ),
            )
        }),
{
    let blocks = erase_plan(offset, len, sector_size);
    erase_run(s, cache, &blocks, sector_size, None);
}

/// Program `data` at `offset` (flash-relative) in `page`-bounded pieces with
/// the chip-size bound alone guarding them: the recovery path.
pub fn force_program(s: &mut Shadow, cache: &mut u32, offset: u32, data: &[u8], page: usize)
    requires
        page > 0,
        offset + data@.len() <= u32::MAX,
    ensures
        ({
            let m = old(s).mem();
            let cap = run_cap(*old(cache), m);
            &&& *final(cache) == cap
            &&& performed(
                *old(s),
                *final(s),
                spec_run_ops(
                    *old(cache),
                    m,
                    spec_chunks_ops(
                        spec_chunks(offset, 0, data@.len() as int, page),
                        data@,
                        None,
                        cap,
                        reg(m, CMNSR),
                        reg(m, SMRDR0),
                    ),
                ),
            )
        }),
{
    program_run(s, cache, offset, data, page, None);
}

} // verus!
