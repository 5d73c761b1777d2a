use deluge::audio_stream::{
    fill_with_dither, iso_out, mic_packet, peak_percent, Diag, Hook, PacketStats, StreamChange,
    Supervisor, DIAG_TICKS, DITHER_SEED,
};
use deluge::firmware::dither_sample;

fn dithers(seed: u32, n: usize) -> Vec<i32> {
    let mut l = seed;
    (0..n).map(|_| dither_sample(&mut l)).collect()
}

#[test]
fn first_packet_anchors_ahead_of_the_dma() {
    let mut ring = vec![0i32; 8192];
    let mut hook = Hook { write_off: 0, lfsr: 1, streaming: false };
    let pkt = [0x00u8, 0x00, 0x40, 0x01, 0x00, 0x00];
    let st = iso_out(&mut ring, &mut hook, 101, &pkt, 3);
    let d = dithers(1, 2);
    assert_eq!(ring[2148], 0x4000_0000 + d[0]);
    assert_eq!(ring[2149], 0x0000_0100 + d[1]);
    assert_eq!(hook.write_off, 2150);
    assert!(hook.streaming);
    assert_eq!(st, PacketStats { clips: 0, peak: 0x4000_0000, reanchored: false });
}

#[test]
fn sixteen_bit_samples_and_wrap() {
    let mut ring = vec![0i32; 4096];
    let mut hook = Hook { write_off: 4095, lfsr: 0xACE1, streaming: true };
    let pkt = [0xFFu8, 0x7F, 0x00, 0x80];
    let st = iso_out(&mut ring, &mut hook, 4096, &pkt, 2);
    let d = dithers(0xACE1, 2);
    assert_eq!(ring[4095], 0x7FFF_0000 + d[0]);
    assert_eq!(ring[0], i32::MIN.saturating_add(d[1]));
    assert_eq!(hook.write_off, 1, "the writer wraps");
    assert_eq!(st, PacketStats { clips: 0, peak: 0x8000_0000, reanchored: false });
}

#[test]
fn lost_lead_re_anchors() {
    let mut ring = vec![0i32; 8];
    let mut hook = Hook { write_off: 7, lfsr: 1, streaming: true };
    let st = iso_out(&mut ring, &mut hook, 8, &[0, 1], 2);
    assert!(st.reanchored);
    assert_eq!(hook.write_off, 1);
}

#[test]
fn unknown_sample_width_writes_nothing() {
    let mut ring = vec![5i32; 4096];
    let mut hook = Hook { write_off: 10, lfsr: 3, streaming: true };
    let st = iso_out(&mut ring, &mut hook, 0, &[1, 2, 3, 4], 0);
    assert!(ring.iter().all(|&x| x == 5));
    assert_eq!(hook.lfsr, 3);
    assert_eq!(st.clips, 0);
}

#[test]
fn dither_fill_is_the_seeded_sequence() {
    let mut ring = vec![0i32; 16];
    fill_with_dither(&mut ring);
    assert_eq!(ring, dithers(DITHER_SEED, 16));
}

#[test]
fn peak_percentages() {
    assert_eq!(peak_percent(0), 0);
    assert_eq!(peak_percent(0x4000_0000), 50);
    assert_eq!(peak_percent(0x8000_0000), 100);
    assert_eq!(peak_percent(u32::MAX), 199);
}

#[test]
fn supervisor_starts_stops_and_reports() {
    let mut s = Supervisor::new(5);
    assert_eq!(s.tick(6), (Diag::Nothing, StreamChange::Started));
    assert_eq!(s.tick(7), (Diag::Nothing, StreamChange::Unchanged));
    assert_eq!(s.tick(7), (Diag::Nothing, StreamChange::Stopped));
    let mut t = Supervisor::new(0);
    for i in 1..DIAG_TICKS {
        assert_eq!(t.tick(i).0, Diag::Nothing);
    }
    assert_eq!(t.tick(DIAG_TICKS).0, Diag::Report);
    assert_eq!(t.diag_ticks, 0);
    let mut idle = Supervisor { last_seq: 0, ui_streaming: false, diag_ticks: DIAG_TICKS - 1 };
    assert_eq!(idle.tick(0), (Diag::Clear, StreamChange::Unchanged));
}

#[test]
fn mic_packets_carry_whole_captured_frames() {
    let ring = [0x1122_3344i32, 0x5566_7788, 0x0102_0304, 0x0506_0708, 0, 0, 0, 0];
    let mut off = 0usize;
    let mut pkt = vec![0u8; 12];
    let n = mic_packet(&ring, &mut off, 4, 3, &mut pkt);
    assert_eq!(n, 12);
    assert_eq!(pkt, vec![0x33, 0x22, 0x11, 0x77, 0x66, 0x55, 0x03, 0x02, 0x01, 0x07, 0x06, 0x05]);
    assert_eq!(off, 4);
    let mut pkt = vec![0u8; 8];
    let mut off = 0usize;
    let n = mic_packet(&ring, &mut off, 3, 2, &mut pkt);
    assert_eq!(n, 4);
    assert_eq!(&pkt[..4], &[0x22, 0x11, 0x66, 0x55]);
    assert_eq!(off, 2);
}
