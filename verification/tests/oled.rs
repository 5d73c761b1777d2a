use deluge::oled::{FrameBuffer, Oled, HEIGHT, WIDTH};

#[test]
fn frame_buffer_pixels() {
    let mut f = FrameBuffer::new();
    assert!(!f.pixel(0, 0));
    f.set_pixel(WIDTH - 1, HEIGHT - 1, true);
    f.set_pixel(WIDTH, 0, true);
    assert!(f.pixel(WIDTH - 1, HEIGHT - 1));
    assert!(!f.pixel(0, 0));
    f.fill(true);
    assert!(f.pixel(5, 5));
    f.fill(false);
    assert!(!f.pixel(WIDTH - 1, HEIGHT - 1));
}

#[test]
fn oled_draws_inside_the_panel_only() {
    let mut o = Oled::new();
    assert_eq!(o.size(), (128, 48));
    o.draw_pixel(3, 4, true);
    o.draw_pixel(-1, 4, true);
    o.draw_pixel(3, 48, true);
    assert!(o.frame_ref().pixel(3, 4));
    o.frame().set_pixel(10, 10, true);
    assert!(o.frame_ref().pixel(10, 10));
    o.clear();
    assert!(!o.frame_ref().pixel(3, 4));
}
