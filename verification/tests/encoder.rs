use deluge::encoder::{edge_direction, take_detents};

#[test]
fn two_edges_make_one_detent() {
    let mut acc = 0i8;
    assert_eq!(take_detents(1, &mut acc), 0);
    assert_eq!(acc, 1);
    assert_eq!(take_detents(1, &mut acc), 1);
    assert_eq!(acc, 0);
    assert_eq!(take_detents(5, &mut acc), 2);
    assert_eq!(acc, 1);
    assert_eq!(take_detents(-4, &mut acc), -1);
    assert_eq!(acc, -1);
}

#[test]
fn zero_delta_changes_nothing() {
    let mut acc = 1i8;
    assert_eq!(take_detents(0, &mut acc), 0);
    assert_eq!(acc, 1);
}

#[test]
fn accumulator_saturates() {
    let mut acc = 1i8;
    assert_eq!(take_detents(127, &mut acc), 63);
    assert_eq!(acc, 1);
    let mut acc = -1i8;
    assert_eq!(take_detents(-128, &mut acc), -64);
    assert_eq!(acc, 0);
}

#[test]
fn edge_direction_compares_the_pins() {
    assert_eq!(edge_direction(0b11, 0, 1, false), 1);
    assert_eq!(edge_direction(0b01, 0, 1, false), -1);
    assert_eq!(edge_direction(0b01, 0, 1, true), 1);
    assert_eq!(edge_direction(0, 31, 30, false), 1);
    assert_eq!(edge_direction(0x8000_0000, 31, 30, false), -1);
}
