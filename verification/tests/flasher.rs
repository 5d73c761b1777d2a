use deluge::flasher::{
    centered_x, check_flash_id, progress_fill_width, verify_image, write_plan, FlashErr,
    ReadRequest, StagingRead, WriteStep, MAX_IMAGE_LEN,
};

#[test]
fn error_messages() {
    assert_eq!(FlashErr::NoFlash.line(), "NO SPI FLASH");
    assert_eq!(FlashErr::Verify.line(), "VERIFY FAILED");
    assert_eq!(FlashErr::TooBig.log(), "BOOT.BIN larger than the FSB sector (256 KB)");
    assert_eq!(FlashErr::NotFound.log(), "BOOT.BIN not found in card root");
}

#[test]
fn flash_id_must_answer() {
    assert_eq!(check_flash_id([0xC2, 0x20, 0x16]), Ok(()));
    assert_eq!(check_flash_id([0x00, 0x00, 0x00]), Err(FlashErr::NoFlash));
    assert_eq!(check_flash_id([0xFF, 0xFF, 0xFF]), Err(FlashErr::NoFlash));
}

#[test]
fn staging_read_ends_at_eof_or_overflow() {
    let mut r = StagingRead::new();
    assert_eq!(r.next(), ReadRequest::Fill { from: 0 });
    assert_eq!(r.on_fill(0), Some(Err(FlashErr::Empty)));
    assert_eq!(r.on_fill(1000), None);
    assert_eq!(r.next(), ReadRequest::Fill { from: 1000 });
    assert_eq!(r.on_fill(0), Some(Ok(1000)));
    let mut full = StagingRead::new();
    assert_eq!(full.on_fill(MAX_IMAGE_LEN), None);
    assert_eq!(full.next(), ReadRequest::Peek);
    assert_eq!(full.on_peek(1), Err(FlashErr::TooBig));
    assert_eq!(full.on_peek(0), Ok(MAX_IMAGE_LEN));
}

#[test]
fn write_plan_in_4k_steps() {
    assert_eq!(
        write_plan(0x2800),
        vec![
            WriteStep { off: 0, len: 0x1000, percent: 40 },
            WriteStep { off: 0x1000, len: 0x1000, percent: 80 },
            WriteStep { off: 0x2000, len: 0x800, percent: 100 },
        ]
    );
    assert_eq!(write_plan(1), vec![WriteStep { off: 0, len: 1, percent: 100 }]);
    assert_eq!(write_plan(MAX_IMAGE_LEN).len(), 64);
}

#[test]
fn verify_compares_every_byte() {
    assert_eq!(verify_image(&[1, 2, 3], &[1, 2, 3, 9]), Ok(()));
    assert_eq!(verify_image(&[1, 2, 3], &[1, 2, 4]), Err(FlashErr::Verify));
    assert_eq!(verify_image(&[], &[]), Ok(()));
}

#[test]
fn screen_layout() {
    assert_eq!(centered_x(12), 28);
    assert_eq!(centered_x(21), 1);
    assert_eq!(centered_x(22), 0);
    assert_eq!(progress_fill_width(0), 0);
    assert_eq!(progress_fill_width(50), 55);
    assert_eq!(progress_fill_width(100), 110);
    assert_eq!(progress_fill_width(200), 110);
}
