use deluge::usb::{base, irq, USB0_BASE, USB1_BASE};

#[test]
fn base_addresses() {
    assert_eq!(USB0_BASE, 0xE801_0000);
    assert_eq!(USB1_BASE, 0xE820_7000);
}

#[test]
fn irq_ids() {
    assert_eq!(irq(0), 73);
    assert_eq!(irq(1), 74);
}

#[test]
fn base_fn() {
    assert_eq!(base(0), USB0_BASE);
    assert_eq!(base(1), USB1_BASE);
}

use deluge::mmio::shadow;
use deluge::usb::{init_device_mode, init_host_mode, module_clock_disable, module_clock_enable, STBCR7};

#[test]
fn clock_gates_touch_one_bit_each() {
    let mut s = shadow::new();
    deluge::mmio::test::poke8(&mut s, STBCR7, 0xFF);
    module_clock_enable(&mut s, 0);
    assert_eq!(deluge::mmio::test::peek8(&s, STBCR7), 0xFD);
    module_clock_enable(&mut s, 1);
    assert_eq!(deluge::mmio::test::peek8(&s, STBCR7), 0xFC);
    module_clock_disable(&mut s, 0);
    assert_eq!(deluge::mmio::test::peek8(&s, STBCR7), 0xFE);
    let log = deluge::mmio::test::log(&s);
    assert_eq!(log.len(), 9, "read, write, dummy read per switch");
    assert!(log.iter().all(|a| a.addr == STBCR7 && a.width == 1));
}

#[test]
fn port_handles_remember_their_port() {
    let mut s = shadow::new();
    let d = init_device_mode(&mut s, 1);
    assert_eq!(d.port_index(), 1);
    let h = init_host_mode(&mut s, 0);
    assert_eq!(h.port_index(), 0);
    assert_eq!(deluge::mmio::test::peek8(&s, STBCR7), 0x00);
}
