use deluge::elf::{
    after_copy_read, copy_request, classify_load_range, load_percent, load_result, mirror_to_phys, parse_header, plan_segment,
    plan_segments, slice_range, total_load_bytes, ElfError, Progress, SegTarget, SegmentPlan,
    SramSegDesc,
};

fn header(machine: u16, phentsize: u16, phnum: u16) -> Vec<u8> {
    let mut h = vec![0u8; 52];
    h[0] = 0x7F;
    h[1] = 0x45;
    h[2] = 0x4C;
    h[3] = 0x46;
    h[4] = 1;
    h[5] = 1;
    h[16..18].copy_from_slice(&2u16.to_le_bytes());
    h[18..20].copy_from_slice(&machine.to_le_bytes());
    h[24..28].copy_from_slice(&0x2002_0100u32.to_le_bytes());
    h[28..32].copy_from_slice(&52u32.to_le_bytes());
    h[42..44].copy_from_slice(&phentsize.to_le_bytes());
    h[44..46].copy_from_slice(&phnum.to_le_bytes());
    h
}

fn phdr(p_type: u32, offset: u32, paddr: u32, filesz: u32, memsz: u32) -> Vec<u8> {
    let mut p = vec![0u8; 32];
    p[0..4].copy_from_slice(&p_type.to_le_bytes());
    p[4..8].copy_from_slice(&offset.to_le_bytes());
    p[12..16].copy_from_slice(&paddr.to_le_bytes());
    p[16..20].copy_from_slice(&filesz.to_le_bytes());
    p[20..24].copy_from_slice(&memsz.to_le_bytes());
    p
}

#[test]
fn header_accepts_arm_executable() {
    let h = parse_header(&header(0x28, 32, 3)).unwrap();
    assert_eq!(h.entry, 0x2002_0100);
    assert_eq!(h.phoff, 52);
    assert_eq!(h.phnum, 3);
}

#[test]
fn header_errors() {
    let mut bad = header(0x28, 32, 3);
    bad[1] = 0x58;
    assert_eq!(parse_header(&bad), Err(ElfError::BadMagic));
    let mut class64 = header(0x28, 32, 3);
    class64[4] = 2;
    assert_eq!(parse_header(&class64), Err(ElfError::WrongFormat));
    assert_eq!(parse_header(&header(0x3E, 32, 3)), Err(ElfError::WrongFormat));
    assert_eq!(parse_header(&header(0x28, 56, 3)), Err(ElfError::WrongFormat));
    assert_eq!(parse_header(&header(0x28, 32, 9)), Err(ElfError::WrongFormat));
    assert!(parse_header(&header(0x28, 32, 8)).is_ok());
}

#[test]
fn mirror_aliases_resolve_to_cached_addresses() {
    assert_eq!(mirror_to_phys(0x6002_0000), 0x2002_0000);
    assert_eq!(mirror_to_phys(0x4C00_1000), 0x0C00_1000);
    assert_eq!(mirror_to_phys(0x60A0_0000), 0x60A0_0000);
    assert_eq!(mirror_to_phys(0x2002_0000), 0x2002_0000);
}

#[test]
fn classify_ranges() {
    assert_eq!(classify_load_range(0x0C00_0000, 0x100), Some(SegTarget::Sdram));
    assert_eq!(classify_load_range(0x0EFF_FF00, 0x100), Some(SegTarget::Sdram));
    assert_eq!(classify_load_range(0x0EFF_FF00, 0x101), None);
    assert_eq!(classify_load_range(0x2002_0000, 0x2E_0000), Some(SegTarget::Sram));
    assert_eq!(classify_load_range(0x2002_0000, 0x2E_0001), None);
    assert_eq!(classify_load_range(0xFFFF_FF00, 0x200), None);
    assert_eq!(classify_load_range(0x1234_5678, 0), Some(SegTarget::Sdram));
}

#[test]
fn plan_direct_staged_and_skipped_segments() {
    let sdram = plan_segment(&phdr(1, 0x1000, 0x0C00_0000, 0x80, 0x100)).unwrap().unwrap();
    assert_eq!(
        sdram,
        SegmentPlan {
            file_offset: 0x1000,
            paddr: 0x0C00_0000,
            write_addr: 0x0C00_0000,
            filesz: 0x80,
            memsz: 0x100,
            staged: false,
        }
    );
    let sram = plan_segment(&phdr(1, 0x2000, 0x6003_0000, 0x40, 0x40)).unwrap().unwrap();
    assert!(sram.staged);
    assert_eq!(sram.write_addr, 0x0F01_0000);
    assert_eq!(
        sram.desc(),
        SramSegDesc { src: 0x0F01_0000, dst: 0x6003_0000, filesz: 0x40, zero_extra: 0 }
    );
    assert_eq!(plan_segment(&phdr(2, 0, 0x0C00_0000, 4, 4)), Ok(None));
    assert_eq!(plan_segment(&phdr(1, 0, 0x2000_0100, 4, 4)), Ok(None));
    assert_eq!(plan_segment(&phdr(1, 0, 0x0C00_0000, 8, 4)), Err(ElfError::WrongFormat));
    assert_eq!(plan_segment(&phdr(1, 0, 0x1800_0000, 4, 4)), Err(ElfError::BadLoadAddress));
}

#[test]
fn plan_all_segments_stops_at_first_refusal() {
    let mut table = phdr(1, 0x100, 0x0C00_0000, 0x10, 0x20);
    table.extend(phdr(6, 0, 0, 0, 0));
    table.extend(phdr(1, 0x200, 0x2002_0000, 0x30, 0x40));
    let plans = plan_segments(&table, 3).unwrap();
    assert_eq!(plans.len(), 2);
    assert!(!plans[0].staged && plans[1].staged);
    let r = load_result(0x2002_0100, &plans);
    assert_eq!(r.entry, 0x2002_0100);
    assert_eq!(r.n_sram, 1);
    assert_eq!(
        r.sram_descs,
        vec![SramSegDesc { src: 0x0F00_0000, dst: 0x2002_0000, filesz: 0x30, zero_extra: 0x10 }]
    );
    table.extend(phdr(1, 0, 0x3000_0000, 4, 4));
    table.extend(phdr(1, 0, 0x0C00_0000, 8, 4));
    assert_eq!(plan_segments(&table, 5), Err(ElfError::BadLoadAddress));
}

#[test]
fn total_bytes_skips_retention_and_non_load() {
    let mut table = phdr(1, 0, 0x0C00_0000, 100, 100);
    table.extend(phdr(1, 0, 0x2000_0000, 50, 50));
    table.extend(phdr(4, 0, 0x0C00_0000, 70, 70));
    table.extend(phdr(1, 0, 0x6002_0000, 25, 40));
    assert_eq!(total_load_bytes(&table, 4), 125);
    assert_eq!(total_load_bytes(&table, 1), 100);
    let mut big = phdr(1, 0, 0x0C00_0000, u32::MAX, u32::MAX);
    big.extend(phdr(1, 0, 0x0C00_0000, 10, 10));
    assert_eq!(total_load_bytes(&big, 2), u32::MAX);
}

#[test]
fn percent_and_progress() {
    assert_eq!(load_percent(0, 0), 100);
    assert_eq!(load_percent(50, 200), 25);
    assert_eq!(load_percent(200, 200), 100);
    assert_eq!(load_percent(0x0400_0000, 0x0800_0000), 31);
    let mut p = Progress::start(1000);
    assert_eq!(p.last_percent, 0);
    assert!(p.needs_final_report());
    assert!(!p.advance(5));
    assert!(p.advance(10));
    assert_eq!(p.last_percent, 1);
    assert!(p.advance(985));
    assert_eq!(p.last_percent, 100);
    assert!(!p.needs_final_report());
    assert_eq!(Progress::start(0).last_percent, 100);
}

#[test]
fn slice_range_copies_the_window() {
    assert_eq!(slice_range(&[1, 2, 3, 4, 5], 1, 4), vec![2, 3, 4]);
    assert_eq!(slice_range(&[1, 2], 2, 2), Vec::<u8>::new());
}

#[test]
fn segment_copy_decisions() {
    assert_eq!(copy_request(1300), 512);
    assert_eq!(copy_request(100), 100);
    assert_eq!(copy_request(0), 0);
    assert_eq!(after_copy_read(1300, 512), Ok(788));
    assert_eq!(after_copy_read(100, 60), Ok(40));
    assert_eq!(after_copy_read(100, 0), Err(ElfError::UnexpectedEof));
    let p = plan_segment(&phdr(1, 0, 0x0C00_1000, 0x80, 0x100)).unwrap().unwrap();
    assert_eq!(p.zero_tail(), (0x0C00_1080, 0x80));
}

#[test]
fn progress_reports_open_and_close() {
    let mut p = Progress::start(400);
    assert_eq!(p.report(), (0, 400));
    assert!(p.advance(100));
    assert_eq!(p.report(), (100, 400));
    assert_eq!(p.final_report(), Some((400, 400)));
    assert!(p.advance(300));
    assert_eq!(p.final_report(), None);
    assert_eq!(Progress::start(0).final_report(), None);
}
