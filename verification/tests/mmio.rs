use deluge::mmio::shadow;
use deluge::mmio::{read16, read32, read8, write16, write32, write8};

#[test]
fn write_read_round_trip_per_width() {
    let mut s = shadow::new();
    deluge::mmio::test::reset(&mut s);
    write32(&mut s, 0x1000, 0xDEAD_BEEF);
    write16(&mut s, 0x2000, 0xABCD);
    write8(&mut s, 0x3000, 0x5A);
    assert_eq!(read32(&mut s, 0x1000), 0xDEAD_BEEF);
    assert_eq!(read16(&mut s, 0x2000), 0xABCD);
    assert_eq!(read8(&mut s, 0x3000), 0x5A);
}

#[test]
fn writes_are_little_endian_in_the_byte_store() {
    let mut s = shadow::new();
    deluge::mmio::test::reset(&mut s);
    write32(&mut s, 0x40, 0x1122_3344);
    assert_eq!(read8(&mut s, 0x40), 0x44);
    assert_eq!(read8(&mut s, 0x41), 0x33);
    assert_eq!(read8(&mut s, 0x42), 0x22);
    assert_eq!(read8(&mut s, 0x43), 0x11);
    assert_eq!(read16(&mut s, 0x40), 0x3344);
}

#[test]
fn log_records_order_and_kind() {
    let mut s = shadow::new();
    deluge::mmio::test::reset(&mut s);
    write8(&mut s, 0xFF00, 1);
    let _ = read8(&mut s, 0xFF00);
    write32(&mut s, 0xFF10, 0x99);
    let log = deluge::mmio::test::log(&s);
    assert_eq!(log.len(), 3);
    assert!(log[0].write && log[0].addr == 0xFF00 && log[0].width == 1);
    assert!(!log[1].write && log[1].addr == 0xFF00 && log[1].val == 1);
    assert!(log[2].write && log[2].addr == 0xFF10 && log[2].val == 0x99);

    assert_eq!(deluge::mmio::test::writes(&s), [(0xFF00, 1), (0xFF10, 0x99)]);
}

#[test]
fn reset_clears_state() {
    let mut s = shadow::new();
    write32(&mut s, 0x10, 0x1);
    deluge::mmio::test::reset(&mut s);
    assert!(deluge::mmio::test::log(&s).is_empty());
    assert_eq!(deluge::mmio::test::peek32(&s, 0x10), 0);
}

#[test]
fn poke_preloads_reads_without_logging() {
    let mut s = shadow::new();
    deluge::mmio::test::reset(&mut s);
    deluge::mmio::test::poke32(&mut s, 0x2000, 0xCAFE);
    assert!(deluge::mmio::test::log(&s).is_empty(), "poke must not log");
    assert_eq!(read32(&mut s, 0x2000), 0xCAFE);
    assert_eq!(deluge::mmio::test::log(&s).len(), 1, "the read is logged");
}
