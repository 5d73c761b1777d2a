use deluge::adc::{read, start, ADCSR, ADDR0};
use deluge::mmio::shadow;

#[test]
fn start_writes_channel_and_clock() {
    let mut s = shadow::new();
    start(&mut s, 3);
    start(&mut s, 9);
    assert_eq!(deluge::mmio::test::writes(&s), vec![(ADCSR, 0x20C3), (ADCSR, 0x20C1)]);
}

#[test]
fn read_waits_for_the_completion_flag() {
    let mut s = shadow::new();
    deluge::mmio::test::poke16(&mut s, ADDR0 + 4, 0x1230);
    assert_eq!(read(&mut s, 2), None);
    deluge::mmio::test::poke16(&mut s, ADCSR, 0x8000);
    assert_eq!(read(&mut s, 2), Some(0x1230));
    assert_eq!(deluge::mmio::test::log(&s).len(), 3);
}
