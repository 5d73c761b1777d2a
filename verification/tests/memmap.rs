use deluge::memmap::{
    area_attr, areas, cache_lines, dma_inv_plan, line_floor, ttb_section_descriptor,
    PARA_NORMAL_CACHE, PARA_NORMAL_NOT_CACHE, PARA_STRONGLY_ORDERED,
};

#[test]
fn line_floor_rounds_down() {
    assert_eq!(line_floor(0), 0);
    assert_eq!(line_floor(31), 0);
    assert_eq!(line_floor(32), 32);
    assert_eq!(line_floor(33), 32);
    assert_eq!(line_floor(0x1007), 0x1000);
}

#[test]
fn cache_lines_aligned_range() {
    let v: Vec<usize> = cache_lines(0, 64).to_vec();
    assert_eq!(v, [0, 32]);
}

#[test]
fn cache_lines_covers_line_containing_end_minus_one() {
    let v: Vec<usize> = cache_lines(0, 65).to_vec();
    assert_eq!(v, [0, 32, 64]);
}

#[test]
fn cache_lines_unaligned_start_floors() {
    let v: Vec<usize> = cache_lines(40, 96).to_vec();
    assert_eq!(v, [32, 64]);
}

#[test]
fn cache_lines_single_line() {
    let v: Vec<usize> = cache_lines(0, 1).to_vec();
    assert_eq!(v, [0]);
}

#[test]
fn inv_plan_fully_aligned_has_no_boundary_cleans() {
    let p = dma_inv_plan(0, 96);
    assert_eq!(p.clean_inv_first, None);
    assert_eq!(p.clean_inv_last, None);
    let v: Vec<usize> = p.inv_lines().to_vec();
    assert_eq!(v, [0, 32, 64]);
}

#[test]
fn inv_plan_unaligned_start_cleans_first_partial_line() {
    let p = dma_inv_plan(40, 96);
    assert_eq!(p.clean_inv_first, Some(32));
    assert_eq!(p.clean_inv_last, None);
    assert_eq!((p.inv_first, p.inv_last), (32, 96));
}

#[test]
fn inv_plan_unaligned_end_cleans_last_partial_line() {
    let p = dma_inv_plan(0, 100);
    assert_eq!(p.clean_inv_first, None);
    assert_eq!(p.clean_inv_last, Some(96));
    assert_eq!((p.inv_first, p.inv_last), (0, 96));
    let v: Vec<usize> = p.inv_lines().to_vec();
    assert_eq!(v, [0, 32, 64]);
}

#[test]
fn inv_plan_both_unaligned() {
    let p = dma_inv_plan(40, 100);
    assert_eq!(p.clean_inv_first, Some(32));
    assert_eq!(p.clean_inv_last, Some(96));
    assert_eq!((p.inv_first, p.inv_last), (32, 96));
}

#[test]
fn inv_plan_sub_line_range() {
    let p = dma_inv_plan(40, 50);
    assert_eq!(p.clean_inv_first, Some(32));
    assert_eq!(p.clean_inv_last, Some(32));
    assert_eq!((p.inv_first, p.inv_last), (32, 32));
    assert_eq!(p.inv_lines().to_vec().len(), 0);
}

#[test]
fn ttb_descriptor_encoding() {
    assert_eq!(ttb_section_descriptor(0xC0, PARA_NORMAL_CACHE), 0x0C00_0000 | 0x1DEE);
    assert_eq!(ttb_section_descriptor(1, 0) >> 20, 1);
    assert_eq!(ttb_section_descriptor(0, 0xFFF0_0000), 0, "high attr bits dropped");
}

#[test]
fn all_para_attrs_mark_a_section_entry() {
    for attr in [PARA_STRONGLY_ORDERED, PARA_NORMAL_NOT_CACHE, PARA_NORMAL_CACHE] {
        assert_eq!(attr & 0b11, 0b10, "{attr:#x} must be a section descriptor");
    }
}

#[test]
fn areas_fill_exactly_4gb() {
    let total: u32 = areas().iter().map(|&(mb, _)| mb).sum();
    assert_eq!(total, 4096, "AREAS must map every 1 MB section");
}

#[test]
fn area_attributes_match_the_rza1l_address_map() {
    assert_eq!(area_attr(0x0000_0000), PARA_NORMAL_CACHE, "CS0 NOR");
    assert_eq!(area_attr(0x0C00_0000), PARA_NORMAL_CACHE, "SDRAM (CS3) cached");
    assert_eq!(area_attr(0x1000_0000), PARA_STRONGLY_ORDERED, "CS4/CS5 device");
    assert_eq!(area_attr(0x1800_0000), PARA_NORMAL_CACHE, "SPI flash cached");
    assert_eq!(area_attr(0x2000_0000), PARA_NORMAL_CACHE, "on-chip SRAM cached");
    assert_eq!(area_attr(0x4C00_0000), PARA_NORMAL_NOT_CACHE, "SDRAM mirror uncached");
    assert_eq!(area_attr(0x6002_0000), PARA_NORMAL_NOT_CACHE, "SRAM mirror uncached");
    assert_eq!(area_attr(0xE820_0000), PARA_STRONGLY_ORDERED, "peripheral device");
}

#[test]
fn cache_lines_walk_up_to_the_top_line() {
    let lines = deluge::memmap::cache_lines(usize::MAX - 40, usize::MAX - 31).to_vec();
    assert_eq!(lines, vec![usize::MAX - 63]);
}
