use deluge::firmware::{
    build_line, dither_sample, dvu_vol_from_knob, knob_level_step, lcg, push, push_all,
    push_dec1, push_u64, speaker_enable, toggle_heartbeat_enabled, VOL_MAX, VOL_UNITY,
};

#[test]
fn knob_volume_curve() {
    assert_eq!(dvu_vol_from_knob(-3), 0);
    assert_eq!(dvu_vol_from_knob(0), 0);
    assert_eq!(dvu_vol_from_knob(8), 0x0008_0000);
    assert_eq!(dvu_vol_from_knob(16), VOL_UNITY);
    assert_eq!(dvu_vol_from_knob(24), 0x0010_0000 + 8 * 0x006F_FFFF / 16);
    assert_eq!(dvu_vol_from_knob(32), VOL_MAX);
}

#[test]
fn knob_steps_are_clamped() {
    assert_eq!(knob_level_step(10, 3), 13);
    assert_eq!(knob_level_step(1, -5), 0);
    assert_eq!(knob_level_step(31, 4), 32);
    assert_eq!(knob_level_step(0, -128), 0);
}

#[test]
fn speaker_only_without_any_jack() {
    assert!(speaker_enable(false, false, false));
    assert!(!speaker_enable(true, false, false));
    assert!(!speaker_enable(false, false, true));
}

#[test]
fn dither_follows_the_lfsr() {
    let mut l = 0xACE1u32;
    let d = dither_sample(&mut l);
    assert_eq!(l, (0xACE1 >> 1) ^ 0xB400);
    assert_eq!(d, ((l & 0x1F) as i32 - 0x10) * 256);
    let mut even = 0x0002u32;
    assert_eq!(dither_sample(&mut even), (0x01 - 0x10) * 256);
    assert_eq!(even, 1);
}

#[test]
fn lcg_wraps() {
    let mut s = 0u32;
    assert_eq!(lcg(&mut s), 1_013_904_223);
    assert_eq!(s, 1_013_904_223);
    let mut s = 1u32;
    assert_eq!(lcg(&mut s), 1_015_568_748);
    let mut s = u32::MAX;
    assert_eq!(lcg(&mut s), 1_013_904_223u32.wrapping_sub(1_664_525));
}

#[test]
fn heartbeat_toggles() {
    let mut on = true;
    assert!(!toggle_heartbeat_enabled(&mut on));
    assert!(toggle_heartbeat_enabled(&mut on));
}

#[test]
fn decimal_writers() {
    let mut out = vec![0u8; 16];
    let mut p = 0usize;
    push_u64(&mut out, &mut p, 0);
    push(&mut out, &mut p, b' ');
    push_u64(&mut out, &mut p, 9_870);
    push(&mut out, &mut p, b' ');
    push_dec1(&mut out, &mut p, 7);
    assert_eq!(&out[..p], b"0 9870 0.7");
    let mut small = vec![0u8; 3];
    let mut p = 0usize;
    push_all(&mut small, &mut p, b"abcdef");
    assert_eq!(p, 3);
    assert_eq!(small, b"abc".to_vec());
}

#[test]
fn throughput_line() {
    let mut out = vec![0u8; 32];
    let n = build_line(&mut out, b"RD ", 123, 456);
    assert_eq!(&out[..n], b"RD 12.3MB/S 456MB");
    let mut short = vec![0u8; 8];
    let n = build_line(&mut short, b"WR ", 5, 1);
    assert_eq!(n, 8);
    assert_eq!(&short[..], b"WR 0.5MB");
}
