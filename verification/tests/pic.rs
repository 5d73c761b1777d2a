use deluge::pic::{notify_oled_deselected, notify_oled_selected, OledHandshake};
use deluge::pic::{
    pad_coords, uart_speed_divider, Event, Parser, BAUD_FAST, PIC_CLK_HZ, RESP_NEXT_PAD_OFF,
    RESP_NO_PRESSES,
};

#[test]
fn pad_coords_first() {
    assert_eq!(pad_coords(0), (0, 0));
}

#[test]
fn pad_coords_second_column_first_row() {
    assert_eq!(pad_coords(1), (2, 0));
}

#[test]
fn pad_coords_ninth_column() {
    assert_eq!(pad_coords(8), (16, 0));
}

#[test]
fn pad_coords_second_half_adds_one_to_x() {
    assert_eq!(pad_coords(72), (1, 0));
}

#[test]
fn parser_pad_press() {
    let mut p = Parser::new();
    assert_eq!(p.push(5), Some(Event::PadPress { id: 5 }));
}

#[test]
fn parser_pad_release() {
    let mut p = Parser::new();
    assert_eq!(p.push(RESP_NEXT_PAD_OFF), None);
    assert_eq!(p.push(5), Some(Event::PadRelease { id: 5 }));
}

#[test]
fn parser_button_press() {
    let mut p = Parser::new();
    assert_eq!(p.push(144), Some(Event::ButtonPress { id: 0 }));
}

#[test]
fn parser_button_release_after_off_prefix() {
    let mut p = Parser::new();
    assert_eq!(p.push(RESP_NEXT_PAD_OFF), None);
    assert_eq!(p.push(150), Some(Event::ButtonRelease { id: 6 }));
}

#[test]
fn parser_undefined_bytes_ignored() {
    let mut p = Parser::new();
    assert_eq!(p.push(180), None);
    assert_eq!(p.push(5), Some(Event::PadPress { id: 5 }));
}

#[test]
fn parser_no_presses() {
    let mut p = Parser::new();
    assert_eq!(p.push(RESP_NO_PRESSES), Some(Event::NoPresses));
}

#[test]
fn parser_oled_select() {
    let mut p = Parser::new();
    assert_eq!(p.push(248), Some(Event::OledSelected));
    assert_eq!(p.push(249), Some(Event::OledDeselected));
}

#[test]
fn parser_firmware_version() {
    let mut p = Parser::new();
    assert_eq!(p.push(245), None);
    assert_eq!(p.push(42), Some(Event::FirmwareVersion(42)));
}

#[test]
fn parser_next_pad_off_clears_after_event() {
    let mut p = Parser::new();
    p.push(RESP_NEXT_PAD_OFF);
    p.push(10);
    assert_eq!(p.push(10), Some(Event::PadPress { id: 10 }));
}

#[test]
fn uart_speed_divider_for_200k() {
    let d = (PIC_CLK_HZ / BAUD_FAST).saturating_sub(1) as u8;
    assert_eq!(d, 19);
    assert_eq!(uart_speed_divider(PIC_CLK_HZ, BAUD_FAST), 19);
}

#[test]
fn oled_echoes_are_taken_once() {
    let mut h = OledHandshake::new();
    assert!(!h.take_selected());
    notify_oled_selected(&mut h);
    notify_oled_deselected(&mut h);
    assert!(h.take_selected());
    assert!(!h.take_selected());
    assert!(h.take_deselected());
    assert!(!h.take_deselected());
}
