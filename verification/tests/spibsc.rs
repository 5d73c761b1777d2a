use deluge::spibsc::{in_chip, within_windows, Window};

const TEST_CHIP: u32 = 0x0040_0000;
const TEST_SECTOR: u32 = 0x0001_0000;

#[test]
fn within_windows_guards_supplied_ranges() {
    let windows = [
        Window { start: 0x10_0000, end: 0x3C_0000 },
        Window { start: 0x3C_0000, end: 0x3D_0000 },
    ];
    assert!(within_windows(0x10_0000, 0x2C_0000, &windows));
    assert!(within_windows(0x3C_0000, TEST_SECTOR, &windows));
    assert!(!within_windows(0x10_0000, 0x2C_0001, &windows));
    assert!(!within_windows(0, TEST_SECTOR, &windows));
    assert!(!within_windows(0x3C_0000, TEST_SECTOR + 1, &windows));
    assert!(!within_windows(0x10_0000, 0, &windows));
}

#[test]
fn in_chip_keeps_chip_bounds() {
    let cap = TEST_CHIP;
    assert!(in_chip(0, TEST_SECTOR, cap));
    assert!(in_chip(0x0008_0000, TEST_SECTOR, cap));
    assert!(in_chip(TEST_CHIP - TEST_SECTOR, TEST_SECTOR, cap));
    assert!(!in_chip(TEST_CHIP - TEST_SECTOR, TEST_SECTOR + 1, cap));
    assert!(!in_chip(TEST_CHIP, 0x100, cap));
    assert!(!in_chip(0, 0, cap), "zero-length is never writable");

    let unknown = 0;
    assert!(!in_chip(0, TEST_SECTOR, unknown), "unknown capacity refuses writes");
}

use deluge::mmio::shadow::{self, Shadow};
use deluge::spibsc::bus::{CMNCR, CMNSR, SMADR, SMCMR, SMRDR0};
use deluge::spibsc::{
    capacity_from_id, erase_plan, force_erase_range, force_program, page_units, program_plan,
    read_id, read_status_reg, Chunk, FlashMap,
};

/// A controller whose transfers end at once (TEND set, SSL released) and
/// whose read-data register holds `rdata`.
fn idle_bus(rdata: u32) -> Shadow {
    let mut s = shadow::new();
    deluge::mmio::test::poke32(&mut s, CMNSR, 0x1);
    deluge::mmio::test::poke32(&mut s, SMRDR0, rdata);
    s
}

/// The addresses that follow each write of command `cmd`, in order.
fn command_addresses(s: &Shadow, cmd: u32) -> Vec<u32> {
    let w = deluge::mmio::test::writes(s);
    let mut out = Vec::new();
    for i in 0..w.len() {
        if w[i] == (SMCMR, cmd << 16) {
            assert_eq!(w[i + 1].0, SMADR);
            out.push(w[i + 1].1);
        }
    }
    out
}

fn board() -> FlashMap {
    FlashMap {
        sector_size: TEST_SECTOR,
        page: 256,
        writable: vec![Window { start: 0x10_0000, end: 0x3C_0000 }],
    }
}

#[test]
fn capacity_comes_from_the_density_byte() {
    assert_eq!(capacity_from_id([0xC2, 0x20, 0x16]), 0x40_0000);
    assert_eq!(capacity_from_id([0xC2, 0x20, 0x1A]), 0x400_0000);
    assert_eq!(capacity_from_id([0x00, 0x20, 0x16]), 0);
    assert_eq!(capacity_from_id([0xFF, 0x20, 0x16]), 0);
    assert_eq!(capacity_from_id([0xC2, 0x20, 0x11]), 0);
    assert_eq!(capacity_from_id([0xC2, 0x20, 0x1B]), 0);
}

#[test]
fn read_id_takes_the_three_low_bytes() {
    let mut s = idle_bus(0xAA16_20C2);
    assert_eq!(read_id(&mut s), [0xC2, 0x20, 0x16]);
    assert_eq!(command_addresses(&s, 0x9F), vec![0]);
    assert_eq!(deluge::mmio::test::peek32(&s, CMNCR) & 0x8000_0000, 0, "back in read mode");
}

#[test]
fn read_status_takes_the_msb_aligned_byte() {
    let mut s = idle_bus(0x8300_0000);
    assert_eq!(read_status_reg(&mut s), 0x83);
}

#[test]
fn erase_plans_cover_every_touched_block() {
    assert_eq!(erase_plan(0x10_8000, 0x1_0000, TEST_SECTOR), vec![0x10_0000, 0x11_0000]);
    assert_eq!(erase_plan(0x10_0000, 0x1_0000, TEST_SECTOR), vec![0x10_0000]);
    assert_eq!(erase_plan(0x10_0000, 0, TEST_SECTOR), Vec::<u32>::new());
}

#[test]
fn program_plans_stop_at_page_boundaries() {
    assert_eq!(
        program_plan(0x10_00F0, 300, 256),
        vec![
            Chunk { addr: 0x10_00F0, start: 0, len: 16 },
            Chunk { addr: 0x10_0100, start: 16, len: 256 },
            Chunk { addr: 0x10_0200, start: 272, len: 28 },
        ]
    );
    assert_eq!(program_plan(0, 0, 256), Vec::<Chunk>::new());
}

#[test]
fn data_units_are_msb_aligned_and_keep_ssl_until_the_last() {
    let u = page_units(&[1, 2, 3, 4, 5, 6, 7]);
    assert_eq!(u.len(), 3);
    assert_eq!((u[0].spide, u[0].val, u[0].smcr), (0xF, 0x0403_0201, 0x103));
    assert_eq!((u[1].spide, u[1].val, u[1].smcr), (0xC, 0x0605_0000, 0x103));
    assert_eq!((u[2].spide, u[2].val, u[2].smcr), (0x8, 0x0700_0000, 0x3));
}

#[test]
fn erase_inside_the_windows_reaches_the_chip() {
    let mut s = idle_bus(0x0016_20C2);
    let mut cache = 0;
    board().erase_sector(&mut s, &mut cache, 0x10_1234);
    assert_eq!(cache, 0x40_0000);
    assert_eq!(command_addresses(&s, 0xD8), vec![0x10_0000]);
}

#[test]
fn erase_outside_the_windows_is_refused() {
    let mut s = idle_bus(0x0016_20C2);
    let mut cache = 0;
    board().erase_sector(&mut s, &mut cache, 0x0000_1000);
    board().erase_range(&mut s, &mut cache, 0x3B_8000, 0x1_0000);
    assert_eq!(command_addresses(&s, 0xD8), vec![0x3B_0000]);
}

#[test]
fn unknown_chip_refuses_every_write() {
    let mut s = idle_bus(0x0016_2000);
    let mut cache = 0;
    board().erase_sector(&mut s, &mut cache, 0x10_0000);
    assert_eq!(cache, 0);
    assert!(command_addresses(&s, 0xD8).is_empty());
}

#[test]
fn program_splits_at_pages_inside_the_windows() {
    let mut s = idle_bus(0x0016_20C2);
    let mut cache = 0x40_0000;
    let data = vec![0x5Au8; 300];
    board().program(&mut s, &mut cache, 0x10_00F0, &data);
    assert_eq!(command_addresses(&s, 0x02), vec![0x10_00F0, 0x10_0100, 0x10_0200]);
    assert!(command_addresses(&s, 0x9F).is_empty(), "cached size is not probed again");
    let mut s = idle_bus(0x0016_20C2);
    board().program_page(&mut s, &mut cache, 0x0F_FFF0, &data[..16]);
    assert!(command_addresses(&s, 0x02).is_empty());
}

#[test]
fn forced_paths_keep_only_the_chip_bound() {
    let mut s = idle_bus(0x0016_20C2);
    let mut cache = 0;
    force_erase_range(&mut s, &mut cache, 0, 0x2_0000, TEST_SECTOR);
    force_erase_range(&mut s, &mut cache, TEST_CHIP, TEST_SECTOR, TEST_SECTOR);
    assert_eq!(command_addresses(&s, 0xD8), vec![0, 0x1_0000]);
    force_program(&mut s, &mut cache, 0x100, &[1, 2, 3], 256);
    force_program(&mut s, &mut cache, TEST_CHIP - 1, &[1, 2], 256);
    assert_eq!(command_addresses(&s, 0x02), vec![0x100, TEST_CHIP - 1], "the byte past the chip is refused");
}
