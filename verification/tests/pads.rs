use deluge::pads::{Color, Pads, COLS, ROWS};

#[test]
fn named_colours() {
    assert_eq!(Color::black(), Color { r: 0, g: 0, b: 0 });
    assert_eq!(Color::default(), Color::black());
    assert_eq!(Color::white().to_rgb(), [255, 255, 255]);
    assert_eq!(Color::rgb(1, 2, 3).to_rgb(), [1, 2, 3]);
}

#[test]
fn hsv_sectors() {
    assert_eq!(Color::hsv(0, 255, 255), Color::rgb(255, 0, 0));
    assert_eq!(Color::hsv(43, 255, 255), Color::rgb(253, 255, 0));
    assert_eq!(Color::hsv(128, 255, 255), Color::rgb(0, 254, 255));
    assert_eq!(Color::hsv(200, 0, 77), Color::rgb(77, 77, 77));
    assert_eq!(Color::hsv(0, 128, 200), Color::rgb(200, 100, 99));
}

#[test]
fn pad_buffer_set_clear_and_bounds() {
    let mut p = Pads::new();
    assert_eq!(p.color_at(COLS - 1, ROWS - 1), Color::black());
    p.set(17, 7, Color::white());
    p.set(18, 0, Color::white());
    p.set(0, 8, Color::white());
    assert_eq!(p.color_at(17, 7), Color::white());
    assert_eq!(p.color_at(16, 7), Color::black());
    assert_eq!(p.color_at(0, 0), Color::black());
    p.clear();
    assert_eq!(p.color_at(17, 7), Color::black());
}
