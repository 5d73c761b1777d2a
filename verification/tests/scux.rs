use deluge::mmio::shadow;
use deluge::scux::regs::{CIM_BASE, DVU_BASE, IPC_BASE, MIX_BASE, OPC_BASE};
use deluge::scux::{
    configure_ipc, configure_mix, configure_opc, reset, set_volume, set_volume_all, start_ramp,
    AudioInfo, BitDepth, DvuConfig, IpcSel, MixConfig, OpcSel, RampConfig, ScuxDma, start_path,
    stop_path, ffd_dma_ch, init_ffd_dma, init_ffu_dma,
};

#[test]
fn audio_info_register_encoding() {
    let a = AudioInfo::stereo_24();
    assert_eq!(a.channels, 2);
    assert_eq!(a.depth, BitDepth::B24);
    assert_eq!(a.to_reg(), 2);
    assert_eq!(AudioInfo { channels: 8, depth: BitDepth::B16 }.to_reg(), 0x0008_0008);
    assert_eq!(BitDepth::B16.otbl(), 8);
}

#[test]
fn path_selector_encodings() {
    assert_eq!(IpcSel::Disabled.value(), 0);
    assert_eq!(IpcSel::SsiToSrcAsync.value(), 1);
    assert_eq!(IpcSel::FfdToSrcAsync.value(), 3);
    assert_eq!(IpcSel::FfdToSrcSync.value(), 4);
    assert_eq!(OpcSel::Disabled.value(), 0);
    assert_eq!(OpcSel::ToSsi.value(), 1);
    assert_eq!(OpcSel::ToFfu.value(), 3);
}

#[test]
fn bypassed_dvu_is_unity_stereo() {
    let c = DvuConfig::bypassed();
    assert!(c.bypass && c.ramp.is_none() && !c.zero_cross_mute);
    assert_eq!(c.volumes, [0x0010_0000; 8]);
    assert_eq!(c.audio.channels, 2);
}

#[test]
fn reset_pulses_swrsr_with_dummy_reads() {
    let mut s = shadow::new();
    reset(&mut s);
    let log = deluge::mmio::test::log(&s);
    let seen: Vec<(bool, usize, u32)> = log.iter().map(|a| (a.write, a.addr, a.val)).collect();
    assert_eq!(
        seen,
        vec![(true, CIM_BASE, 0), (false, CIM_BASE, 0), (true, CIM_BASE, 1), (false, CIM_BASE, 1)]
    );
}

#[test]
fn path_selection_writes_one_register() {
    let mut s = shadow::new();
    configure_ipc(&mut s, 1, IpcSel::FfdToSrcAsync);
    configure_opc(&mut s, 0, OpcSel::ToSsi);
    assert_eq!(
        deluge::mmio::test::writes(&s),
        vec![(IPC_BASE + 0x100 + 0x04, 3), (OPC_BASE + 0x04, 1)]
    );
}

#[test]
fn volumes_and_ramp() {
    let mut s = shadow::new();
    set_volume(&mut s, 1, 3, 0x0008_0000);
    set_volume_all(&mut s, 0, 2, 0x0010_0000);
    start_ramp(&mut s, 0, RampConfig { vrpdr: 0x0A, vrdbr: 0x3FF });
    assert_eq!(
        deluge::mmio::test::writes(&s),
        vec![
            (DVU_BASE + 0x100 + 0x24 + 12, 0x0008_0000),
            (DVU_BASE + 0x24, 0x0010_0000),
            (DVU_BASE + 0x28, 0x0010_0000),
            (DVU_BASE + 0x18, 0x0A),
            (DVU_BASE + 0x1C, 0x3FF),
            (DVU_BASE + 0x14, 1),
        ]
    );
}

#[test]
fn mixer_bypass_and_unity_gain() {
    let mut s = shadow::new();
    configure_mix(&mut s, MixConfig { audio: AudioInfo::stereo_24(), bypass: true });
    assert_eq!(deluge::mmio::test::writes(&s), vec![(MIX_BASE + 0x04, 2), (MIX_BASE + 0x08, 1)]);
    let mut s = shadow::new();
    configure_mix(&mut s, MixConfig { audio: AudioInfo::stereo_24(), bypass: false });
    let w = deluge::mmio::test::writes(&s);
    assert_eq!(w.len(), 7);
    assert_eq!(w[1], (MIX_BASE + 0x08, 0));
    assert_eq!(w[6], (MIX_BASE + 0x24, 1));
}

#[test]
fn stopping_a_path_undoes_starting_it() {
    let mut s = shadow::new();
    let dmacr = CIM_BASE + 0x04;
    deluge::mmio::test::poke32(&mut s, dmacr, 0x20);
    let dma = ScuxDma::new();
    start_path(&dma, &mut s, 0b0001, 0, 0b0001, 0, false, 0b0001, 0);
    assert_eq!(deluge::mmio::test::peek32(&s, dmacr), 0x21);
    stop_path(&mut s, 0b0001, 0, 0b0001, 0, false, 0b0001, 0);
    assert_eq!(deluge::mmio::test::peek32(&s, dmacr), 0x20);
}

#[test]
fn ffd_path_keeps_its_channel_across_other_setups() {
    let mut s = shadow::new();
    let mut dma = ScuxDma::new();
    init_ffd_dma(&mut dma, &mut s, 1, 5, 0x2002_0000, 0x400, 0x6002_1000);
    assert_eq!(ffd_dma_ch(&dma, 1), 5);
    init_ffd_dma(&mut dma, &mut s, 2, 6, 0x2002_0400, 0x400, 0x6002_1020);
    init_ffu_dma(&mut dma, &mut s, 1, 7, 0x2002_0800, 0x400, 0x6002_1040);
    assert_eq!(ffd_dma_ch(&dma, 1), 5);
    assert_eq!(ffd_dma_ch(&dma, 2), 6);
    assert_eq!(ffd_dma_ch(&dma, 0), 0);
    init_ffd_dma(&mut dma, &mut s, 1, 3, 0x2002_0000, 0x400, 0x6002_1000);
    assert_eq!(ffd_dma_ch(&dma, 1), 3);
}
