use deluge::uf2::{
    dump_block_count, dump_payload, parse_block, render_dump_block, FlashSlot, Outcome,
    Uf2Parse, Uf2Programmer, UF2_FAMILY_DELUGE, UF2_FLAG_FAMILY_PRESENT, UF2_FLAG_NOT_MAIN_FLASH,
    UF2_MAGIC_END, UF2_MAGIC_START0, UF2_MAGIC_START1,
};

const SLOT: FlashSlot = FlashSlot { offset: 0x10_0000, len: 0x4_0000, sector_size: 0x1_0000 };

fn put(b: &mut [u8], at: usize, v: u32) {
    b[at..at + 4].copy_from_slice(&v.to_le_bytes());
}

fn le(b: &[u8], at: usize) -> u32 {
    u32::from_le_bytes([b[at], b[at + 1], b[at + 2], b[at + 3]])
}

fn block(flags: u32, target: u32, payload: u32, block_no: u32, num_blocks: u32, family: u32) -> Vec<u8> {
    let mut b = vec![0u8; 512];
    put(&mut b, 0x00, UF2_MAGIC_START0);
    put(&mut b, 0x04, UF2_MAGIC_START1);
    put(&mut b, 0x08, flags);
    put(&mut b, 0x0C, target);
    put(&mut b, 0x10, payload);
    put(&mut b, 0x14, block_no);
    put(&mut b, 0x18, num_blocks);
    put(&mut b, 0x1C, family);
    put(&mut b, 0x1FC, UF2_MAGIC_END);
    b
}

fn ours(target: u32, payload: u32, block_no: u32, num_blocks: u32) -> Vec<u8> {
    block(UF2_FLAG_FAMILY_PRESENT, target, payload, block_no, num_blocks, UF2_FAMILY_DELUGE)
}

#[test]
fn parse_accepts_a_block_for_the_slot() {
    assert_eq!(
        parse_block(&ours(0x1810_0000, 256, 0, 4), &SLOT),
        Uf2Parse::Block { target: 0x1810_0000, payload: 256, block_no: 0, num_blocks: 4 }
    );
}

#[test]
fn parse_ignores_foreign_and_malformed_sectors() {
    assert_eq!(parse_block(&[0u8; 512], &SLOT), Uf2Parse::Ignored);
    assert_eq!(parse_block(&ours(0x1810_0000, 256, 0, 4)[..511], &SLOT), Uf2Parse::Ignored);
    let meta = block(
        UF2_FLAG_FAMILY_PRESENT | UF2_FLAG_NOT_MAIN_FLASH,
        0x1810_0000,
        256,
        0,
        4,
        UF2_FAMILY_DELUGE,
    );
    assert_eq!(parse_block(&meta, &SLOT), Uf2Parse::Ignored);
    let foreign = block(UF2_FLAG_FAMILY_PRESENT, 0x1810_0000, 256, 0, 4, 0xE48B_FF56);
    assert_eq!(parse_block(&foreign, &SLOT), Uf2Parse::Ignored);
    let no_family = block(0, 0x1810_0000, 256, 0, 4, UF2_FAMILY_DELUGE);
    assert_eq!(parse_block(&no_family, &SLOT), Uf2Parse::Ignored);
    assert_eq!(parse_block(&ours(0x180F_FF00, 256, 0, 4), &SLOT), Uf2Parse::Ignored);
    assert_eq!(parse_block(&ours(0x1813_FF01, 256, 0, 4), &SLOT), Uf2Parse::Ignored);
    assert_eq!(
        parse_block(&ours(0x1813_FF00, 256, 0, 4), &SLOT),
        Uf2Parse::Block { target: 0x1813_FF00, payload: 256, block_no: 0, num_blocks: 4 }
    );
}

#[test]
fn parse_rejects_impossible_payload_sizes() {
    assert_eq!(parse_block(&ours(0x1810_0000, 0, 0, 4), &SLOT), Uf2Parse::Invalid);
    assert_eq!(parse_block(&ours(0x1810_0000, 477, 0, 4), &SLOT), Uf2Parse::Invalid);
    assert!(matches!(parse_block(&ours(0x1810_0000, 476, 0, 4), &SLOT), Uf2Parse::Block { .. }));
}

#[test]
fn programmer_erases_each_sector_once() {
    let mut p = Uf2Programmer::new(SLOT);
    assert_eq!(p.progress(), (0, 0));
    let plan = p.write_block(&ours(0x1810_0000, 256, 0, 3));
    assert_eq!(plan.outcome, Outcome::Programmed);
    assert_eq!(plan.erase, vec![0x10_0000]);
    assert_eq!(plan.program, Some((0x10_0000, 256)));
    let plan = p.write_block(&ours(0x1810_FF80, 256, 1, 3));
    assert_eq!(plan.outcome, Outcome::Programmed);
    assert_eq!(plan.erase, vec![0x11_0000]);
    assert_eq!(plan.program, Some((0x10_FF80, 256)));
    let plan = p.write_block(&ours(0x1810_0100, 256, 2, 3));
    assert_eq!(plan.outcome, Outcome::Done);
    assert!(plan.erase.is_empty());
    assert_eq!(p.progress(), (3, 3));
}

#[test]
fn programmer_ignores_and_errors_without_flash_work() {
    let mut p = Uf2Programmer::new(SLOT);
    let plan = p.write_block(&[0u8; 512]);
    assert_eq!(plan.outcome, Outcome::Ignored);
    assert!(plan.erase.is_empty() && plan.program.is_none());
    let plan = p.write_block(&ours(0x1810_0000, 0, 0, 1));
    assert_eq!(plan.outcome, Outcome::Error);
    assert!(plan.erase.is_empty() && plan.program.is_none());
    assert_eq!(p.progress(), (0, 0));
    let plan = p.write_block(&ours(0x1812_0000, 16, 0, 0));
    assert_eq!(plan.outcome, Outcome::Programmed);
    assert_eq!(plan.erase, vec![0x12_0000]);
}

#[test]
fn dump_geometry() {
    assert_eq!(dump_block_count(0), 0);
    assert_eq!(dump_block_count(256), 1);
    assert_eq!(dump_block_count(257), 2);
    assert_eq!(dump_payload(0, 300), 256);
    assert_eq!(dump_payload(1, 300), 44);
    assert_eq!(dump_payload(2, 300), 0);
}

#[test]
fn dump_block_parses_back() {
    let page: Vec<u8> = (0..44u32).map(|i| i as u8 + 1).collect();
    let out = render_dump_block(1, 300, 0x1810_0000, &page);
    assert_eq!(out.len(), 512);
    assert_eq!(le(&out, 0x00), UF2_MAGIC_START0);
    assert_eq!(le(&out, 0x04), UF2_MAGIC_START1);
    assert_eq!(le(&out, 0x08), UF2_FLAG_FAMILY_PRESENT);
    assert_eq!(le(&out, 0x0C), 0x1810_0100);
    assert_eq!(le(&out, 0x10), 44);
    assert_eq!(le(&out, 0x14), 1);
    assert_eq!(le(&out, 0x18), 2);
    assert_eq!(le(&out, 0x1C), UF2_FAMILY_DELUGE);
    assert_eq!(&out[0x20..0x20 + 44], &page[..]);
    assert!(out[0x20 + 44..0x1FC].iter().all(|&b| b == 0));
    assert_eq!(le(&out, 0x1FC), UF2_MAGIC_END);
    assert_eq!(
        parse_block(&out, &SLOT),
        Uf2Parse::Block { target: 0x1810_0100, payload: 44, block_no: 1, num_blocks: 2 }
    );
}
