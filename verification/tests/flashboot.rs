use deluge::elf::SramSegDesc;
use deluge::flashboot::{probe, signature, FlashImage, HEADER_LEN};
use deluge::uf2::FlashSlot;

const SLOT: FlashSlot = FlashSlot { offset: 0x8_0000, len: 0x8_0000, sector_size: 0x1_0000 };

fn header(start: u32, end: u32, entry: u32) -> Vec<u8> {
    let mut h = vec![0u8; HEADER_LEN];
    h[0x20..0x24].copy_from_slice(&start.to_le_bytes());
    h[0x24..0x28].copy_from_slice(&end.to_le_bytes());
    h[0x28..0x2C].copy_from_slice(&entry.to_le_bytes());
    h[0x2C..0x2C + 27].copy_from_slice(&signature());
    h
}

#[test]
fn signature_text() {
    assert_eq!(signature(), b".BootLoad_ValidProgramTest.".to_vec());
}

#[test]
fn a_valid_image_is_found_and_described() {
    let img = probe(&header(0x2002_0000, 0x2006_0000, 0x2002_0100), SLOT).unwrap();
    assert_eq!(img, FlashImage { code_start: 0x2002_0000, code_end: 0x2006_0000, entry: 0x2002_0100 });
    assert_eq!(
        img.desc(SLOT),
        SramSegDesc { src: 0x1808_0000, dst: 0x2002_0000, filesz: 0x4_0000, zero_extra: 0 }
    );
}

#[test]
fn invalid_headers_are_refused() {
    let mut bad_sig = header(0x2002_0000, 0x2006_0000, 0x2002_0100);
    bad_sig[0x2C + 26] = b'!';
    assert_eq!(probe(&bad_sig, SLOT), None);
    assert_eq!(probe(&header(0x2001_FFFC, 0x2006_0000, 0x2002_0100), SLOT), None);
    assert_eq!(probe(&header(0x2002_0000, 0x2002_0000, 0x2002_0000), SLOT), None);
    assert_eq!(probe(&header(0x2002_0000, 0x2030_0004, 0x2002_0100), SLOT), None);
    assert_eq!(probe(&header(0x2002_0000, 0x200A_0004, 0x2002_0100), SLOT), None);
    assert_eq!(probe(&header(0x2002_0000, 0x2006_0000, 0x2006_0000), SLOT), None);
    assert!(probe(&header(0x2002_0000, 0x200A_0000, 0x2009_FFFC), SLOT).is_some());
}
