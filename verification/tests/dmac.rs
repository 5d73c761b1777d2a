use deluge::dmac::{
    ch_base, ch_reg, dctrl_reg, dmars_reg, init_with_link_descriptor, CHCTRL_CLREN,
    CHCTRL_CLRTC, CHCTRL_SETEN, CHCTRL_SWRST, OFF_CHCFG, OFF_CHSTAT, OFF_NXLA,
};
use deluge::mmio::shadow;

#[test]
fn ch_base_layout() {
    assert_eq!(ch_base(0) as usize, 0xE820_0000);
    assert_eq!(ch_base(1) as usize, 0xE820_0040);
    assert_eq!(ch_base(7) as usize, 0xE820_01C0);
    assert_eq!(ch_base(8) as usize, 0xE820_0400);
    assert_eq!(ch_base(9) as usize, 0xE820_0440);
    assert_eq!(ch_base(15) as usize, 0xE820_05C0);
}

#[test]
fn ch_base_stride_is_uniform_within_each_group() {
    for ch in 0..7u8 {
        assert_eq!(ch_base(ch + 1) - ch_base(ch), 64);
    }
    for ch in 8..15u8 {
        assert_eq!(ch_base(ch + 1) - ch_base(ch), 64);
    }
}

#[test]
fn ch_reg_adds_offset() {
    assert_eq!(ch_reg(0, OFF_CHCFG) as usize, 0xE820_0000 + 0x2C);
    assert_eq!(ch_reg(8, OFF_NXLA) as usize, 0xE820_0400 + 0x38);
    assert_eq!(ch_reg(5, OFF_CHSTAT) as usize, ch_base(5) + OFF_CHSTAT);
}

#[test]
fn dctrl_selects_group_register() {
    for ch in 0..8u8 {
        assert_eq!(dctrl_reg(ch) as usize, 0xE820_0300);
    }
    for ch in 8..16u8 {
        assert_eq!(dctrl_reg(ch) as usize, 0xE820_0700);
    }
}

#[test]
fn dmars_register_is_shared_per_channel_pair() {
    assert_eq!(dmars_reg(0) as usize, 0xFCFE_1000);
    assert_eq!(dmars_reg(1) as usize, 0xFCFE_1000);
    assert_eq!(dmars_reg(2) as usize, 0xFCFE_1004);
    assert_eq!(dmars_reg(3) as usize, 0xFCFE_1004);
    assert_eq!(dmars_reg(14) as usize, 0xFCFE_101C);
    assert_eq!(dmars_reg(15) as usize, 0xFCFE_101C);
}

#[test]
fn chctrl_bits_are_distinct() {
    let all = CHCTRL_SETEN | CHCTRL_CLREN | CHCTRL_SWRST | CHCTRL_CLRTC;
    assert_eq!(all.count_ones(), 4);
}

#[test]
fn init_link_descriptor_even_channel() {
    let mut s = shadow::new();
    deluge::mmio::test::reset(&mut s);
    let desc: [u32; 8] = [0, 0, 0, 0, 0xABCD_1234, 0, 0, 0];
    let ch = 6u8;
    let desc_addr = desc.as_ptr() as usize as u32;
    init_with_link_descriptor(&mut s, ch, &desc, desc_addr, 0x00E1);

    assert_eq!(deluge::mmio::test::peek32(&s, dctrl_reg(ch) as usize), 0, "DCTRL cleared");
    assert_eq!(
        deluge::mmio::test::peek32(&s, ch_reg(ch, OFF_CHCFG) as usize),
        0xABCD_1234,
        "CHCFG from desc[4]"
    );
    assert_eq!(deluge::mmio::test::peek32(&s, dmars_reg(ch) as usize), 0x0000_00E1);
    assert_eq!(
        deluge::mmio::test::peek32(&s, ch_reg(ch, OFF_NXLA) as usize),
        desc_addr,
        "NXLA = descriptor address"
    );
}

#[test]
fn init_link_descriptor_odd_channel_uses_high_dmars_half() {
    let mut s = shadow::new();
    deluge::mmio::test::reset(&mut s);
    let dmars = dmars_reg(7) as usize;
    deluge::mmio::test::poke32(&mut s, dmars, 0x0000_00E1);
    let desc = [0u32; 8];
    init_with_link_descriptor(&mut s, 7, &desc, desc.as_ptr() as usize as u32, 0x00E2);
    assert_eq!(deluge::mmio::test::peek32(&s, dmars), 0x00E2_00E1, "odd in high, even preserved");
}
