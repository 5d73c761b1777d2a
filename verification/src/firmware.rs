//! Decisions and arithmetic of the firmware applications: the master-volume
//! curve of the gold knob, the speaker policy, the anti-auto-mute dither, the
//! screensaver's random numbers, and the heartbeat switch.
use vstd::prelude::*;

verus! {

/// Unity gain of a DVU volume register (4.20 fixed point).
pub const VOL_UNITY: u32 = 0x0010_0000;
/// The largest DVU volume (+18 dB).
pub const VOL_MAX: u32 = 0x007F_FFFF;
/// The highest gold-knob level.
pub const KNOB_MAX: i32 = 32;

/// The DVU volume of gold-knob level `level` (0–32): muted at 0 and below,
/// rising linearly to unity at 16, then linearly to +18 dB at 32.
pub open spec fn spec_dvu_vol_from_knob(level: i32) -> int {
    if level <= 0 {
        0
    } else if level <= 16 {
        level * VOL_UNITY / 16
    } else {
        VOL_UNITY + (level - 16) * (VOL_MAX - VOL_UNITY) / 16
    }
}

/// Map a gold-knob level to a DVU volume (see [`spec_dvu_vol_from_knob`]).
pub fn dvu_vol_from_knob(level: i32) -> (v: u32)
    requires
        level <= KNOB_MAX,
    ensures
        v == spec_dvu_vol_from_knob(level),
{
    if level <= 0 {
        0
    } else if level <= 16 {
        assert((level as u32) * 0x0010_0000 <= 16 * 0x0010_0000) by (nonlinear_arith)
            requires
                0 < level <= 16,
        ;
        (level as u32) * 0x0010_0000 / 16
    } else {
        assert((level as u32 - 16) * (0x007F_FFFF - 0x0010_0000) <= 16 * 0x006F_FFFF)
            by (nonlinear_arith)
            requires
                16 < level <= 32,
        ;
        0x0010_0000 + (level as u32 - 16) * (0x007F_FFFF - 0x0010_0000) / 16
    }
}

/// The knob level after `detents` clicks: moved by the detents and held to
/// 0..=32.
pub fn knob_level_step(level: i32, detents: i8) -> (l: i32)
    requires
        0 <= level <= KNOB_MAX,
    ensures
        l == if level + detents < 0 {
            0
        } else if level + detents > KNOB_MAX {
            KNOB_MAX as int
        } else {
            level + detents
        },
{
    let n = level + detents as i32;
    if n < 0 {
        0
    } else if n > KNOB_MAX {
        KNOB_MAX
    } else {
        n
    }
}

/// The speaker amplifier runs only while neither the headphone nor either
/// line-out jack is plugged in.
pub fn speaker_enable(headphone: bool, line_out_l: bool, line_out_r: bool) -> (on: bool)
    ensures
        on == !(headphone || line_out_l || line_out_r),
{
    !(headphone || line_out_l || line_out_r)
}

/// One step of the dither generator's 16-bit Galois LFSR (taps 0xB400).
pub open spec fn spec_lfsr_step(lfsr: u32) -> u32 {
    if lfsr & 1 != 0 { (lfsr >> 1u32) ^ 0xB400 } else { lfsr >> 1u32 }
}

/// The dither of a stepped LFSR state: its low five bits, centred, in bits
/// 12:8 (±16 LSBs of a 24-bit sample).
pub open spec fn spec_dither(stepped: u32) -> i32 {
    (((stepped & 0x1F) as int - 0x10) * 256) as i32
}

/// Step the LFSR and return the next dither value, which lies in
/// `-0x1000..=0xF00` and is a multiple of 256.
pub fn dither_sample(lfsr: &mut u32) -> (d: i32)
    ensures
        *final(lfsr) == spec_lfsr_step(*old(lfsr)),
        d == spec_dither(*final(lfsr)),
        -0x1000 <= d <= 0xF00,
{
    let bit = *lfsr & 1;
    *lfsr = *lfsr >> 1;
    if bit != 0 {
        *lfsr = *lfsr ^ 0xB400;
    }
    let low = *lfsr & 0x1F;
    assert(low <= 31) by (bit_vector)
        requires
            low == *lfsr & 0x1F,
    ;
    (low as i32 - 0x10) * 256
}

/// One step of the screensaver's linear congruential generator:
/// `s * 1664525 + 1013904223`, wrapping at 32 bits.
pub open spec fn spec_lcg(s: u32) -> u32 {
    ((s * 1_664_525 + 1_013_904_223) % 0x1_0000_0000) as u32
}

/// Step the generator and return the new state.
pub fn lcg(s: &mut u32) -> (r: u32)
    ensures
        r == spec_lcg(*old(s)),
        *final(s) == r,
{
    let m = s.wrapping_mul(1_664_525);
    let n = m.wrapping_add(1_013_904_223);
    *s = n;
    n
}

/// Flip the heartbeat switch; returns the new setting.
pub fn toggle_heartbeat_enabled(enabled: &mut bool) -> (now: bool)
    ensures
        now == !*old(enabled),
        *final(enabled) == now,
{
    *enabled = !*enabled;
    *enabled
}

/// The base-10 digits of `v`, most significant first (`"0"` for zero).
pub open spec fn spec_decimal(v: nat) -> Seq<u8>
    decreases v,
{
    if v < 10 {
        seq![(48 + v) as u8]
    } else {
        spec_decimal(v / 10).push((48 + v % 10) as u8)
    }
}

/// A fixed-point value in tenths, as `"<int>.<digit>"`.
pub open spec fn spec_dec1(tenths: nat) -> Seq<u8> {
    spec_decimal(tenths / 10) + seq![46u8, (48 + tenths % 10) as u8]
}

/// `out` after writing `s` from position `p` until `out` is full, and the
/// position after the last byte written.
pub open spec fn spec_emit(out: Seq<u8>, p: int, s: Seq<u8>) -> (Seq<u8>, int) {
    let room = if p < out.len() { out.len() - p } else { 0 };
    let n = if s.len() < room { s.len() as int } else { room };
    (
        Seq::new(out.len(), |i: int| if p <= i < p + n { s[i - p] } else { out[i] }),
        p + n,
    )
}

proof fn lemma_emit_join(out: Seq<u8>, p: int, a: Seq<u8>, b: Seq<u8>)
    requires
        0 <= p <= out.len(),
    ensures
        spec_emit(spec_emit(out, p, a).0, spec_emit(out, p, a).1, b) == spec_emit(out, p, a + b),
{
    let (o1, p1) = spec_emit(out, p, a);
    let (o2, p2) = spec_emit(o1, p1, b);
    let (o3, p3) = spec_emit(out, p, a + b);
    assert(o2 =~= o3);
}

/// Write `b` at `*p` and advance, if `out` has room; otherwise nothing.
pub fn push(out: &mut Vec<u8>, p: &mut usize, b: u8)
    ensures
        (final(out)@, *final(p) as int) == spec_emit(old(out)@, *old(p) as int, seq![b]),
{
    if *p < out.len() {
        out.set(*p, b);
        *p = *p + 1;
    }
    assert(out@ =~= spec_emit(old(out)@, *old(p) as int, seq![b]).0);
}

/// Write every byte of `s` in turn (see [`push`]).
pub fn push_all(out: &mut Vec<u8>, p: &mut usize, s: &[u8])
    requires
        *old(p) <= old(out)@.len(),
    ensures
        (final(out)@, *final(p) as int) == spec_emit(old(out)@, *old(p) as int, s@),
{
    let mut k: usize = 0;
    while k < s.len()
        invariant
            k <= s@.len(),
            *old(p) <= old(out)@.len(),
            (out@, *p as int) == spec_emit(old(out)@, *old(p) as int, s@.take(k as int)),
        decreases s@.len() - k,
    {
        proof {
            lemma_emit_join(old(out)@, *old(p) as int, s@.take(k as int), seq![s@[k as int]]);
            assert(s@.take(k as int) + seq![s@[k as int]] =~= s@.take(k + 1));
        }
        push(out, p, s[k]);
        k += 1;
    }
    assert(s@.take(k as int) =~= s@);
}

/// Write `v` in base 10 (see [`push`]).
pub fn push_u64(out: &mut Vec<u8>, p: &mut usize, v: u64)
    requires
        *old(p) <= old(out)@.len(),
    ensures
        (final(out)@, *final(p) as int) == spec_emit(old(out)@, *old(p) as int, spec_decimal(
            v as nat,
        )),
{
    if v == 0 {
        push(out, p, 48);
        return ;
    }
    let mut tmp: Vec<u8> = Vec::new();
    let mut w = v;
    while w > 0
        invariant
            w <= v,
            v > 0,
            w > 0 ==> spec_decimal(v as nat) == spec_decimal(w as nat) + tmp@.reverse(),
            w == 0 ==> spec_decimal(v as nat) == tmp@.reverse(),
        decreases w,
    {
        let d = (48 + w % 10) as u8;
        let ghost old_tmp = tmp@;
        let ghost old_w = w;
        tmp.push(d);
        w = w / 10;
        proof {
            assert(tmp@.reverse() =~= seq![d] + old_tmp.reverse());
            if old_w >= 10 {
                assert(spec_decimal(old_w as nat) == spec_decimal(w as nat).push(d));
                assert(spec_decimal(w as nat) + tmp@.reverse() =~= spec_decimal(old_w as nat)
                    + old_tmp.reverse());
            } else {
                assert(spec_decimal(old_w as nat) =~= seq![d]);
                assert(tmp@.reverse() =~= spec_decimal(old_w as nat) + old_tmp.reverse());
            }
        }
    }
    let mut i: usize = tmp.len();
    let ghost digits = tmp@.reverse();
    assert(digits.take(0) =~= Seq::<u8>::empty());
    assert(spec_emit(old(out)@, *old(p) as int, Seq::<u8>::empty()).0 =~= old(out)@);
    while i > 0
        invariant
            i <= tmp@.len(),
            digits == tmp@.reverse(),
            *old(p) <= old(out)@.len(),
            (out@, *p as int) == spec_emit(
                old(out)@,
                *old(p) as int,
                digits.take(tmp@.len() - i),
            ),
        decreases i,
    {
        i -= 1;
        let ghost k: int = tmp@.len() - i - 1;
        proof {
            lemma_emit_join(old(out)@, *old(p) as int, digits.take(k), seq![digits[k]]);
            assert(digits.take(k) + seq![digits[k]] =~= digits.take(k + 1));
            assert(digits[k] == tmp@[i as int]);
        }
        push(out, p, tmp[i]);
    }
    assert(digits.take(tmp@.len() as int) =~= digits);
}

/// Write a value in tenths as `"<int>.<digit>"` (see [`push`]).
pub fn push_dec1(out: &mut Vec<u8>, p: &mut usize, tenths: u64)
    requires
        *old(p) <= old(out)@.len(),
    ensures
        (final(out)@, *final(p) as int) == spec_emit(old(out)@, *old(p) as int, spec_dec1(
            tenths as nat,
        )),
{
    let ghost o0 = out@;
    let ghost p0 = *p as int;
    push_u64(out, p, tenths / 10);
    let ghost a = spec_decimal((tenths / 10) as nat);
    push(out, p, 46);
    proof {
        lemma_emit_join(o0, p0, a, seq![46u8]);
    }
    push(out, p, 48 + (tenths % 10) as u8);
    proof {
        lemma_emit_join(o0, p0, a + seq![46u8], seq![(48 + tenths % 10) as u8]);
        assert(a + seq![46u8] + seq![(48 + tenths % 10) as u8] =~= spec_dec1(tenths as nat));
    }
}

/// `"MB/S "`.
pub open spec fn spec_mbs() -> Seq<u8> {
    seq![77u8, 66, 47, 83, 32]
}

/// `"MB"`.
pub open spec fn spec_mb() -> Seq<u8> {
    seq![77u8, 66]
}

/// The throughput line `"<label><speed>MB/S <total>MB"`, speed in tenths of
/// MB/s.
pub open spec fn spec_line(label: Seq<u8>, speed_tenths: nat, total_mb: nat) -> Seq<u8> {
    label + spec_dec1(speed_tenths) + spec_mbs() + spec_decimal(total_mb) + spec_mb()
}

/// Format the throughput line into `out`, as much as fits, and return its
/// length.
pub fn build_line(out: &mut Vec<u8>, label: &[u8], speed_tenths: u64, total_mb: u64) -> (n: usize)
    ensures
        (final(out)@, n as int) == spec_emit(
            old(out)@,
            0,
            spec_line(label@, speed_tenths as nat, total_mb as nat),
        ),
{
    let ghost o0 = out@;
    let mut p: usize = 0;
    push_all(out, &mut p, label);
    push_dec1(out, &mut p, speed_tenths);
    proof {
        lemma_emit_join(o0, 0, label@, spec_dec1(speed_tenths as nat));
    }
    let mbs: [u8; 5] = [77, 66, 47, 83, 32];
    assert(mbs@ =~= spec_mbs());
    push_all(out, &mut p, &mbs);
    proof {
        lemma_emit_join(o0, 0, label@ + spec_dec1(speed_tenths as nat), spec_mbs());
    }
    push_u64(out, &mut p, total_mb);
    proof {
        lemma_emit_join(
            o0,
            0,
            label@ + spec_dec1(speed_tenths as nat) + spec_mbs(),
            spec_decimal(total_mb as nat),
        );
    }
    let mb: [u8; 2] = [77, 66];
    assert(mb@ =~= spec_mb());
    push_all(out, &mut p, &mb);
    proof {
        lemma_emit_join(
            o0,
            0,
            label@ + spec_dec1(speed_tenths as nat) + spec_mbs() + spec_decimal(total_mb as nat),
            spec_mb(),
        );
    }
    p
}

/// The knob's volume curve: silent at the bottom, unity at the middle
/// detent, +18 dB at the top, and never quieter for a higher level.
pub proof fn lemma_knob_volume_curve(l1: i32, l2: i32)
    requires
        l1 <= l2 <= KNOB_MAX,
    ensures
        spec_dvu_vol_from_knob(0) == 0,
        spec_dvu_vol_from_knob(16) == VOL_UNITY,
        spec_dvu_vol_from_knob(KNOB_MAX) == VOL_MAX,
        spec_dvu_vol_from_knob(l1) <= spec_dvu_vol_from_knob(l2) <= VOL_MAX,
        0 <= spec_dvu_vol_from_knob(l1),
{
    if l1 > 0 && l1 <= 16 {
        assert(l1 * VOL_UNITY / 16 <= VOL_UNITY) by (nonlinear_arith) requires 0 < l1 <= 16;
        assert(l1 * VOL_UNITY / 16 >= 0) by (nonlinear_arith) requires 0 < l1;
    }
    if l2 > 0 && l2 <= 16 {
        assert(l2 * VOL_UNITY / 16 <= VOL_UNITY) by (nonlinear_arith) requires 0 < l2 <= 16;
        assert(l2 * VOL_UNITY / 16 >= 0) by (nonlinear_arith) requires 0 < l2;
        if l1 > 0 {
            assert(l1 * VOL_UNITY / 16 <= l2 * VOL_UNITY / 16) by (nonlinear_arith) requires 0 < l1 <= l2;
        }
    }
    if l2 > 16 {
        assert((l2 - 16) * (VOL_MAX - VOL_UNITY) / 16 <= VOL_MAX - VOL_UNITY) by (nonlinear_arith)
            requires 16 < l2 <= 32;
        assert((l2 - 16) * (VOL_MAX - VOL_UNITY) / 16 >= 0) by (nonlinear_arith) requires 16 < l2;
        if l1 > 16 {
            assert((l1 - 16) * (VOL_MAX - VOL_UNITY) / 16 <= (l2 - 16) * (VOL_MAX - VOL_UNITY) / 16)
                by (nonlinear_arith) requires 16 < l1 <= l2;
        } else if l1 > 0 {
            assert(l1 * VOL_UNITY / 16 <= VOL_UNITY) by (nonlinear_arith) requires 0 < l1 <= 16;
        }
    }
}

} // verus!
