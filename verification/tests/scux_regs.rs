use deluge::dmac::{CHCFG_DAD, CHCFG_DEM, CHCFG_REQD, CHCFG_SAD};
use deluge::scux::regs::{
    ffd, ffd_chcfg, ffu, ffu_chcfg, intifs, ipc, opc, vol_off, FFDIR_OFF, FFDPR_OFF, FFD_BASE,
    FFD_STRIDE, FFUIR_OFF, FFU_BASE, FFU_STRIDE, FUAIR_OFF, INTIFS_44100_TO_44100,
    INTIFS_88200_TO_44100, IPCIR_OFF, IPC_BASE, IPSLR_OFF, OPCIR_OFF, OPC_BASE, OPSLR_OFF,
    VOL0R_OFF,
};

#[test]
fn block_bases_match_datasheet_offsets() {
    assert_eq!(IPC_BASE, 0xE820_8000);
    assert_eq!(OPC_BASE, 0xE820_8400);
    assert_eq!(FFD_BASE, 0xE820_8800);
    assert_eq!(FFU_BASE, 0xE820_8C00);
}

#[test]
fn channel_addressing_is_base_plus_stride_plus_offset() {
    assert_eq!(ipc(0, IPCIR_OFF), 0xE820_8000);
    assert_eq!(ipc(1, IPCIR_OFF), 0xE820_8100);
    assert_eq!(ipc(2, IPSLR_OFF), 0xE820_8200 + 0x04);

    assert_eq!(opc(0, OPCIR_OFF), 0xE820_8400);
    assert_eq!(opc(3, OPSLR_OFF), 0xE820_8400 + 3 * 0x100 + 0x04);

    assert_eq!(ffd(0, FFDIR_OFF), 0xE820_8800);
    assert_eq!(ffd(3, FFDPR_OFF), 0xE820_8800 + 3 * 0x100 + 0x0C);

    assert_eq!(ffu(0, FFUIR_OFF), 0xE820_8C00);
    assert_eq!(ffu(2, FUAIR_OFF), 0xE820_8C00 + 2 * 0x100 + 0x04);
}

#[test]
fn per_channel_windows_do_not_overlap() {
    for ch in 0..3u8 {
        assert_eq!(ffd(ch + 1, 0) - ffd(ch, 0), FFD_STRIDE);
        assert_eq!(ffu(ch + 1, 0) - ffu(ch, 0), FFU_STRIDE);
    }
}

#[test]
fn intifs_unity_is_q22_one_not_the_old_16x_bug() {
    assert_eq!(intifs(44100, 44100), 0x0040_0000);
    assert_eq!(intifs(48000, 48000), 0x0040_0000);
    assert_eq!(INTIFS_44100_TO_44100, 0x0040_0000);
    assert_ne!(INTIFS_44100_TO_44100, 0x0400_0000, "must not be 16× too large");
}

#[test]
fn intifs_integer_ratios_are_exact() {
    assert_eq!(intifs(88200, 44100), 0x0080_0000);
    assert_eq!(intifs(96000, 48000), 0x0080_0000);
    assert_eq!(INTIFS_88200_TO_44100, 0x0080_0000);
    assert!(intifs(44100, 48000) < 0x0040_0000);
    assert_eq!(intifs(48000, 0), 0);
}

#[test]
fn intifs_matches_q22_formula() {
    for (fin, fout) in [(32000u32, 44100u32), (44100, 48000), (96000, 44100)] {
        let expected = (((fin as u64) << 22) / fout as u64) as u32;
        assert_eq!(intifs(fin, fout), expected, "{fin}->{fout}");
    }
}

#[test]
fn ffd_and_ffu_chcfg_direction_and_channel() {
    assert_eq!(ffd_chcfg(0) & CHCFG_DAD, CHCFG_DAD);
    assert_eq!(ffd_chcfg(0) & CHCFG_REQD, CHCFG_REQD);
    assert_eq!(ffu_chcfg(0) & CHCFG_SAD, CHCFG_SAD);
    assert_eq!(ffu_chcfg(0) & CHCFG_DEM, CHCFG_DEM);
    assert_eq!(ffu_chcfg(0) & CHCFG_REQD, 0, "FFU is source-triggered");
    assert_eq!(ffd_chcfg(5) & 7, 5);
    assert_eq!(ffu_chcfg(3) & 7, 3);
    assert_eq!(ffd_chcfg(7), ffd_chcfg(0) | 7);
}

#[test]
fn vol_register_offsets_are_4_apart() {
    assert_eq!(vol_off(0), VOL0R_OFF);
    assert_eq!(vol_off(1), VOL0R_OFF + 4);
    assert_eq!(vol_off(7), VOL0R_OFF + 28);
}

#[test]
fn ffd_chcfg_masks_the_end_interrupt() {
    assert_eq!(ffd_chcfg(0), 0x8122_2268);
    assert_eq!(ffd_chcfg(5), 0x8122_226D);
    assert_eq!(ffd_chcfg(0) & CHCFG_DEM, CHCFG_DEM);
}
