//! USB audio streaming into and out of the codec rings: converting host PCM
//! packets into MSB-aligned 32-bit SSI words with anti-auto-mute dither, kept
//! a fixed lead ahead of the DMA read head, and packing captured SSI words
//! into host packets.
use crate::firmware::{dither_sample, spec_dither, spec_lfsr_step};
use vstd::prelude::*;

verus! {

/// Lead (mono slots) the writer keeps ahead of the DMA read head.
pub const WRITE_AHEAD: usize = 2048;

/// The writer's state, carried from packet to packet.
#[derive(Clone, Copy, Debug, PartialEq, Eq, Structural)]
pub struct Hook {
    /// Next ring slot to write.
    pub write_off: usize,
    /// Dither generator state.
    pub lfsr: u32,
    /// A stream is running (cleared when the host stops sending).
    pub streaming: bool,
}

/// What one packet did, for the diagnostics.
#[derive(Clone, Copy, Debug, PartialEq, Eq, Structural)]
pub struct PacketStats {
    /// Samples whose dither saturated at the `i32` rail.
    pub clips: u32,
    /// Largest sample magnitude before dither.
    pub peak: u32,
    /// The writer had fallen behind the DMA and was moved.
    pub reanchored: bool,
}

/// The slot `WRITE_AHEAD` past the DMA head, on a stereo frame boundary.
pub open spec fn spec_anchor(dma_off: int, buf_len: int) -> int {
    let o = (dma_off + WRITE_AHEAD) % buf_len;
    o - o % 2
}

/// The host sample `i` of `pkt` as an MSB-aligned 32-bit word: 24-bit
/// little-endian in bits 31:8 when samples are 3 bytes, else 16-bit
/// little-endian signed in bits 31:16.
pub open spec fn spec_raw(pkt: Seq<u8>, bps: int, i: int) -> i32 {
    if bps == 3 {
        ((pkt[i * 3] as u32) << 8u32 | (pkt[i * 3 + 1] as u32) << 16u32 | (pkt[i * 3 + 2] as u32)
            << 24u32) as i32
    } else {
        (((pkt[i * 2] as u16 | (pkt[i * 2 + 1] as u16) << 8u16) as i16) as int * 0x1_0000) as i32
    }
}

/// `a + b` held to the `i32` range.
pub open spec fn spec_sat_add(a: i32, b: i32) -> i32 {
    if a + b > i32::MAX {
        i32::MAX
    } else if a + b < i32::MIN {
        i32::MIN
    } else {
        (a + b) as i32
    }
}

/// `|x|` as an unsigned value.
pub open spec fn spec_uabs(x: i32) -> u32 {
    if x < 0 { (-(x as int)) as u32 } else { x as u32 }
}

/// Writing samples `k..n` of a packet: the ring, the next slot, the dither
/// state, the clip count and the peak afterwards.
pub open spec fn spec_write_samples(
    ring: Seq<i32>,
    wr: int,
    lfsr: u32,
    clips: int,
    peak: u32,
    pkt: Seq<u8>,
    bps: int,
    k: int,
    n: int,
) -> (Seq<i32>, int, u32, int, u32)
    decreases n - k,
{
    if k >= n {
        (ring, wr, lfsr, clips, peak)
    } else {
        let raw = spec_raw(pkt, bps, k);
        let l2 = spec_lfsr_step(lfsr);
        let d = spec_dither(l2);
        let sample = spec_sat_add(raw, d);
        let clipped = raw + d > i32::MAX || raw + d < i32::MIN;
        let p2 = if spec_uabs(raw) > peak { spec_uabs(raw) } else { peak };
        let w2 = if wr + 1 >= ring.len() { 0 } else { wr + 1 };
        spec_write_samples(
            ring.update(wr, sample),
            w2,
            l2,
            if clipped { clips + 1 } else { clips },
            p2,
            pkt,
            bps,
            k + 1,
            n,
        )
    }
}

/// Where the writer starts for this packet: re-anchored on the first packet
/// of a stream, and again when its lead has shrunk below half of
/// `WRITE_AHEAD`. Returns the slot and whether the lead had been lost.
pub open spec fn spec_start_slot(hook: Hook, dma_off: int, buf_len: int) -> (int, bool) {
    let w0 = if !hook.streaming { spec_anchor(dma_off, buf_len) } else { hook.write_off as int };
    let ahead = (w0 + buf_len - dma_off) % buf_len;
    if ahead < WRITE_AHEAD / 2 { (spec_anchor(dma_off, buf_len), true) } else { (w0, false) }
}

fn anchor(dma_off: usize, buf_len: usize) -> (o: usize)
    requires
        buf_len > 0,
        dma_off < buf_len,
        buf_len + WRITE_AHEAD <= usize::MAX,
    ensures
        o == spec_anchor(dma_off as int, buf_len as int),
        o < buf_len,
{
    let m = (dma_off + WRITE_AHEAD) % buf_len;
    assert(m & !1usize == m - m % 2) by (bit_vector);
    m & !1usize
}

/// Convert one ISO OUT packet into the SSI transmit ring `ring`: re-anchor
/// the writer if needed (see [`spec_start_slot`]), then, unless the sample
/// width is unknown (0 bytes), write each whole sample of `pkt`, MSB-aligned
/// with dither mixed in (saturating, never wrapping), advancing and wrapping
/// the writer. `dma_raw` is the DMA read position, which may read one past
/// the end at the wrap. The stream is marked running.
pub fn iso_out(ring: &mut Vec<i32>, hook: &mut Hook, dma_raw: usize, pkt: &[u8], bps: usize) -> (st:
    PacketStats)
    requires
        old(ring)@.len() > 0,
        2 * old(ring)@.len() + WRITE_AHEAD <= usize::MAX,
        old(hook).write_off < old(ring)@.len(),
        bps == 0 || bps >= 2,
        pkt@.len() <= 0xFFFF,
    ensures
        ({
            let len = old(ring)@.len() as int;
            let (w0, re) = spec_start_slot(*old(hook), dma_raw as int % len, len);
            let n = if bps == 0 { 0 } else { (pkt@.len() as int) / (bps as int) };
            let (r, w, l, c, p) = spec_write_samples(
                old(ring)@,
                w0,
                old(hook).lfsr,
                0,
                0,
                pkt@,
                bps as int,
                0,
                n,
            );
            &&& final(ring)@ == r
            &&& final(hook).write_off == w
            &&& final(hook).lfsr == l
            &&& final(hook).streaming
            &&& st == PacketStats { clips: c as u32, peak: p, reanchored: re }
        }),
        final(hook).write_off < final(ring)@.len(),
        final(ring)@.len() == old(ring)@.len(),
{
    let buf_len = ring.len();
    let dma_off = dma_raw % buf_len;
    let mut wr = hook.write_off;
    if !hook.streaming {
        wr = anchor(dma_off, buf_len);
        hook.streaming = true;
    }
    let ahead = (wr + buf_len - dma_off) % buf_len;
    let mut reanchored = false;
    if ahead < WRITE_AHEAD / 2 {
        wr = anchor(dma_off, buf_len);
        reanchored = true;
    }
    let ghost w0 = wr as int;
    let ghost ring0 = ring@;
    let mut lfsr = hook.lfsr;
    let mut clips: u32 = 0;
    let mut peak: u32 = 0;
    if bps != 0 {
        let n = pkt.len() / bps;
        let mut i: usize = 0;
        while i < n
            invariant
                n == (pkt@.len() as int) / (bps as int),
                bps >= 2,
                i <= n,
                n <= 0xFFFF,
                ring@.len() == buf_len,
                wr < buf_len,
                clips <= i,
                spec_write_samples(ring@, wr as int, lfsr, clips as int, peak, pkt@, bps as int, i as int, n as int)
                    == spec_write_samples(ring0, w0, old(hook).lfsr, 0, 0, pkt@, bps as int, 0, n as int),
            decreases n - i,
        {
            assert(i * bps + bps <= pkt@.len() && i * 2 + 2 <= pkt@.len()) by (nonlinear_arith)
                requires
                    i < n,
                    n == (pkt@.len() as int) / (bps as int),
                    bps >= 2,
            ;
            let raw: i32 = if bps == 3 {
                let b0 = pkt[i * 3] as u32;
                let b1 = pkt[i * 3 + 1] as u32;
                let b2 = pkt[i * 3 + 2] as u32;
                (b0 << 8 | b1 << 16 | b2 << 24) as i32
            } else {
                let v = (pkt[i * 2] as u16 | (pkt[i * 2 + 1] as u16) << 8) as i16;
                assert((v as i32) * 0x1_0000 >= i32::MIN && (v as i32) * 0x1_0000 <= i32::MAX) by (nonlinear_arith);
                (v as i32) * 0x1_0000
            };
            let a: u32 = if raw < 0 {
                if raw == i32::MIN { 0x8000_0000 } else { (-raw) as u32 }
            } else {
                raw as u32
            };
            if a > peak {
                peak = a;
            }
            let dith = dither_sample(&mut lfsr);
            let sum: i64 = raw as i64 + dith as i64;
            let sample: i32 = if sum > i32::MAX as i64 {
                i32::MAX
            } else if sum < i32::MIN as i64 {
                i32::MIN
            } else {
                sum as i32
            };
            if sum > i32::MAX as i64 || sum < i32::MIN as i64 {
                clips = clips + 1;
            }
            ring.set(wr, sample);
            wr = wr + 1;
            if wr >= buf_len {
                wr = 0;
            }
            i += 1;
        }
    }
    hook.lfsr = lfsr;
    hook.write_off = wr;
    PacketStats { clips, peak, reanchored }
}

/// The dither values of a generator started at `lfsr`, `n` of them.
pub open spec fn spec_dither_run(lfsr: u32, n: nat) -> Seq<i32>
    decreases n,
{
    if n == 0 {
        Seq::empty()
    } else {
        let l2 = spec_lfsr_step(lfsr);
        seq![spec_dither(l2)] + spec_dither_run(l2, (n - 1) as nat)
    }
}

/// The generator state after `n` steps from `lfsr`.
pub open spec fn spec_lfsr_after(lfsr: u32, n: nat) -> u32
    decreases n,
{
    if n == 0 { lfsr } else { spec_lfsr_after(spec_lfsr_step(lfsr), (n - 1) as nat) }
}

proof fn lemma_dither_run_push(lfsr: u32, n: nat)
    ensures
        spec_dither_run(lfsr, n + 1) == spec_dither_run(lfsr, n).push(
            spec_dither(spec_lfsr_step(spec_lfsr_after(lfsr, n))),
        ),
        spec_lfsr_after(lfsr, n + 1) == spec_lfsr_step(spec_lfsr_after(lfsr, n)),
    decreases n,
{
    if n > 0 {
        lemma_dither_run_push(spec_lfsr_step(lfsr), (n - 1) as nat);
        assert(spec_dither_run(lfsr, n + 1) =~= spec_dither_run(lfsr, n).push(
            spec_dither(spec_lfsr_step(spec_lfsr_after(lfsr, n))),
        ));
    } else {
        assert(spec_dither_run(spec_lfsr_step(lfsr), 0) =~= Seq::<i32>::empty());
        assert(spec_lfsr_after(spec_lfsr_step(lfsr), 0) == spec_lfsr_step(lfsr));
        assert(spec_dither_run(lfsr, 1) =~= seq![spec_dither(spec_lfsr_step(lfsr))]);
    }
}

/// The generator's seed for a silent ring.
pub const DITHER_SEED: u32 = 0xACE1;

/// Fill the whole transmit ring with low-level dither noise (generator
/// seeded with [`DITHER_SEED`]), so the codec never sees a run of identical
/// samples.
pub fn fill_with_dither(ring: &mut Vec<i32>)
    ensures
        final(ring)@ == spec_dither_run(DITHER_SEED, old(ring)@.len()),
{
    let mut lfsr: u32 = DITHER_SEED;
    let mut i: usize = 0;
    let ghost len = ring@.len();
    while i < ring.len()
        invariant
            ring@.len() == len,
            i <= len,
            lfsr == spec_lfsr_after(DITHER_SEED, i as nat),
            ring@.take(i as int) == spec_dither_run(DITHER_SEED, i as nat),
        decreases len - i,
    {
        proof {
            lemma_dither_run_push(DITHER_SEED, i as nat);
        }
        let d = dither_sample(&mut lfsr);
        ring.set(i, d);
        assert(ring@.take(i + 1) =~= spec_dither_run(DITHER_SEED, i as nat).push(d));
        i += 1;
    }
    assert(ring@.take(len as int) =~= ring@);
}

/// Percent of full scale (2^31) of a peak magnitude, without floating point.
pub fn peak_percent(peak: u32) -> (pct: u32)
    ensures
        pct == peak * 100 / 0x8000_0000,
{
    let wide = peak as u64 * 100;
    assert(wide >> 31 == wide / 0x8000_0000) by (bit_vector);
    (wide >> 31) as u32
}

/// How the stream changed on a supervisor tick.
#[derive(Clone, Copy, Debug, PartialEq, Eq, Structural)]
pub enum StreamChange {
    Unchanged,
    /// Packets started arriving: gate the speaker on (unless a jack is in).
    Started,
    /// Packets stopped: clear the stream flag, speaker off, refill with dither.
    Stopped,
}

/// What to do with the per-second diagnostics on a tick.
#[derive(Clone, Copy, Debug, PartialEq, Eq, Structural)]
pub enum Diag {
    Nothing,
    /// A second has passed while streaming: log and clear the counters.
    Report,
    /// A second has passed while idle: clear the counters.
    Clear,
}

/// Supervisor ticks per diagnostics report (one second at 25 ms).
pub const DIAG_TICKS: u32 = 40;

/// The speaker-stream supervisor: watches the packet counter each tick.
#[derive(Clone, Copy, Debug, PartialEq, Eq, Structural)]
pub struct Supervisor {
    pub last_seq: u32,
    pub ui_streaming: bool,
    pub diag_ticks: u32,
}

impl Supervisor {
    /// Start watching from packet counter `seq`.
    pub fn new(seq: u32) -> (s: Supervisor)
        ensures
            s == (Supervisor { last_seq: seq, ui_streaming: false, diag_ticks: 0 }),
    {
        Supervisor { last_seq: seq, ui_streaming: false, diag_ticks: 0 }
    }

    /// One tick with packet counter `seq`: activity is a changed counter; a
    /// report (or clear) is due every [`DIAG_TICKS`] ticks according to the
    /// stream state before this tick; the stream starts on the first active
    /// tick and stops on the first idle one.
    pub fn tick(&mut self, seq: u32) -> (r: (Diag, StreamChange))
        requires
            old(self).diag_ticks < DIAG_TICKS,
        ensures
            ({
                let active = seq != old(self).last_seq;
                let due = old(self).diag_ticks + 1 >= DIAG_TICKS;
                &&& r.0 == if !due {
                    Diag::Nothing
                } else if old(self).ui_streaming {
                    Diag::Report
                } else {
                    Diag::Clear
                }
                &&& r.1 == if active && !old(self).ui_streaming {
                    StreamChange::Started
                } else if !active && old(self).ui_streaming {
                    StreamChange::Stopped
                } else {
                    StreamChange::Unchanged
                }
                &&& final(self).last_seq == seq
                &&& final(self).ui_streaming == active
                &&& final(self).diag_ticks == if due { 0 } else { old(self).diag_ticks + 1 }
            }),
    {
        let active = seq != self.last_seq;
        self.last_seq = seq;
        self.diag_ticks = self.diag_ticks + 1;
        let mut diag = Diag::Nothing;
        if self.diag_ticks >= DIAG_TICKS {
            self.diag_ticks = 0;
            diag = if self.ui_streaming { Diag::Report } else { Diag::Clear };
        }
        let mut change = StreamChange::Unchanged;
        if active && !self.ui_streaming {
            self.ui_streaming = true;
            change = StreamChange::Started;
        } else if !active && self.ui_streaming {
            self.ui_streaming = false;
            change = StreamChange::Stopped;
        }
        (diag, change)
    }
}

/// The bytes of captured SSI word `sample` in a host packet: bits 31:8
/// little-endian (3 bytes) for 24-bit capture, else bits 31:16 (2 bytes).
pub open spec fn spec_capture_bytes(sample: i32, bps: int) -> Seq<u8> {
    if bps == 3 {
        let v = (sample >> 8i32) as u32;
        seq![(v & 0xFF) as u8, ((v >> 8u32) & 0xFF) as u8, ((v >> 16u32) & 0xFF) as u8]
    } else {
        let v = (sample >> 16i32) as u16;
        seq![(v & 0xFF) as u8, ((v >> 8u16) & 0xFF) as u8]
    }
}

/// `pkt` with the capture bytes of ring samples `k..m` written, sample `j`
/// at `j * bps`, reading the ring from `off` and wrapping.
pub open spec fn spec_pack(pkt: Seq<u8>, ring: Seq<i32>, off: int, bps: int, k: int, m: int) -> Seq<u8>
    decreases m - k,
{
    if k >= m {
        pkt
    } else {
        let b = spec_capture_bytes(ring[off], bps);
        let p2 = Seq::new(
            pkt.len(),
            |x: int| if k * bps <= x < k * bps + b.len() { b[x - k * bps] } else { pkt[x] },
        );
        spec_pack(p2, ring, if off + 1 >= ring.len() { 0 } else { off + 1 }, bps, k + 1, m)
    }
}

/// The capture read position `off` moved on by `m` slots in a ring of `len`.
pub open spec fn spec_advance(off: int, m: int, len: int) -> int {
    (off + m) % len
}

/// Stereo frames to send: all whole frames captured since `read_off` (the
/// DMA write head is at `hw_raw`, possibly one past the end), at most what
/// fits in a `pkt_len`-byte packet.
pub open spec fn spec_frames(read_off: int, hw_raw: int, len: int, pkt_len: int, bps: int) -> int {
    let hw = hw_raw % len;
    let captured = (hw + len - read_off) % len;
    let max_frames = pkt_len / (2 * bps);
    if captured / 2 < max_frames { captured / 2 } else { max_frames }
}

proof fn lemma_mod_step(x: int, m: int)
    requires
        x >= 0,
        m > 0,
    ensures
        (x + 1) % m == if x % m + 1 >= m { 0 } else { x % m + 1 },
{
    vstd::arithmetic::div_mod::lemma_add_mod_noop(x, 1, m);
    if m == 1 {
        vstd::arithmetic::div_mod::lemma_mod_self_0(1);
        assert((x + 1) % 1 == 0) by (nonlinear_arith);
        assert(x % 1 == 0) by (nonlinear_arith);
    } else {
        vstd::arithmetic::div_mod::lemma_small_mod(1, m as nat);
        let r = x % m;
        assert(0 <= r < m) by (nonlinear_arith)
            requires
                m > 0,
                r == x % m,
        ;
        if r + 1 < m {
            vstd::arithmetic::div_mod::lemma_small_mod((r + 1) as nat, m as nat);
        } else {
            vstd::arithmetic::div_mod::lemma_mod_self_0(m);
        }
    }
}

/// Pack the newly captured stereo frames of the receive ring into `pkt`
/// (24-bit or 16-bit little-endian) and advance the read position; returns
/// the packet length in bytes.
pub fn mic_packet(ring: &[i32], read_off: &mut usize, hw_raw: usize, bps: usize, pkt: &mut Vec<u8>)
    -> (nbytes: usize)
    requires
        ring@.len() > 0,
        2 * ring@.len() <= usize::MAX,
        *old(read_off) < ring@.len(),
        2 <= bps <= 4,
        old(pkt)@.len() <= 0x10000,
    ensures
        ({
            let len = ring@.len() as int;
            let f = spec_frames(*old(read_off) as int, hw_raw as int, len, old(pkt)@.len() as int, bps as int);
            &&& nbytes == f * 2 * bps
            &&& final(pkt)@ == spec_pack(old(pkt)@, ring@, *old(read_off) as int, bps as int, 0, f * 2)
            &&& *final(read_off) == spec_advance(*old(read_off) as int, f * 2, len)
        }),
{
    let len = ring.len();
    let max_frames = pkt.len() / (2 * bps);
    let hw = hw_raw % len;
    let captured = (hw + len - *read_off) % len;
    let frames = if captured / 2 < max_frames { captured / 2 } else { max_frames };
    assert(frames * 2 * bps <= pkt@.len()) by (nonlinear_arith)
        requires
            frames <= max_frames,
            max_frames == (pkt@.len() as int) / (2 * bps as int),
            bps >= 2,
    ;
    let nbytes = frames * 2 * bps;
    let m = frames * 2;
    let ghost pkt0 = pkt@;
    let ghost off0 = *read_off as int;
    proof {
        vstd::arithmetic::div_mod::lemma_small_mod(off0 as nat, len as nat);
    }
    let mut i: usize = 0;
    while i < m
        invariant
            m == frames * 2,
            m * bps <= pkt@.len(),
            pkt@.len() <= 0x10000,
            2 <= bps <= 4,
            0 <= off0 < len,
            ring@.len() == len,
            len > 0,
            *read_off < len,
            i <= m,
            pkt@.len() == pkt0.len(),
            *read_off == spec_advance(off0, i as int, len as int),
            spec_pack(pkt@, ring@, *read_off as int, bps as int, i as int, m as int) == spec_pack(
                pkt0,
                ring@,
                off0,
                bps as int,
                0,
                m as int,
            ),
        decreases m - i,
    {
        let sample = ring[*read_off];
        assert(i * bps + bps <= m * bps) by (nonlinear_arith)
            requires
                i < m,
                bps >= 2,
        ;
        let off = i * bps;
        assert(off + 3 <= pkt@.len() || bps != 3) by (nonlinear_arith)
            requires
                i < m,
                m * bps <= pkt@.len(),
                off == i * bps,
        ;
        assert(off + 2 <= pkt@.len()) by (nonlinear_arith)
            requires
                i < m,
                m * bps <= pkt@.len(),
                off == i * bps,
                bps >= 2,
        ;
        let ghost before = pkt@;
        if bps == 3 {
            let val = (sample >> 8) as u32;
            pkt.set(off, (val & 0xFF) as u8);
            pkt.set(off + 1, ((val >> 8) & 0xFF) as u8);
            pkt.set(off + 2, ((val >> 16) & 0xFF) as u8);
        } else {
            let val = (sample >> 16) as u16;
            pkt.set(off, (val & 0xFF) as u8);
            pkt.set(off + 1, ((val >> 8) & 0xFF) as u8);
        }
        proof {
            let b = spec_capture_bytes(sample, bps as int);
            assert(pkt@ =~= Seq::new(
                before.len(),
                |x: int| if i * bps <= x < i * bps + b.len() { b[x - i * bps] } else { before[x] },
            ));
        }
        let ghost prev_off = *read_off as int;
        *read_off = *read_off + 1;
        if *read_off >= len {
            *read_off = 0;
        }
        proof {
            lemma_mod_step(off0 + i, len as int);
        }
        i += 1;
    }
    nbytes
}

} // verus!
