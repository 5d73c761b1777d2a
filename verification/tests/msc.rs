use deluge::msc::{bus_reset, control_in, control_out, take_reset, targets_iface, ControlRequest};

fn req(request: u8, index: u16) -> ControlRequest {
    ControlRequest { class: true, to_interface: true, index, request }
}

#[test]
fn bulk_only_reset_is_latched_until_taken() {
    let mut pending = false;
    assert!(control_out(0, &req(0xFF, 0), &mut pending));
    assert!(pending);
    assert!(take_reset(&mut pending));
    assert!(!take_reset(&mut pending));
}

#[test]
fn other_requests_are_not_ours() {
    let mut pending = false;
    assert!(!control_out(0, &req(0xFF, 1), &mut pending));
    assert!(!control_out(0, &req(0x01, 0), &mut pending));
    let mut standard = req(0xFF, 0);
    standard.class = false;
    assert!(!control_out(0, &standard, &mut pending));
    assert!(!pending);
    assert!(targets_iface(2, &req(0, 0x0102)));
}

#[test]
fn get_max_lun_answers_zero() {
    assert_eq!(control_in(0, &req(0xFE, 0), 1), Some(0));
    assert_eq!(control_in(0, &req(0xFE, 0), 0), None);
    assert_eq!(control_in(1, &req(0xFE, 0), 1), None);
    assert_eq!(control_in(0, &req(0xFF, 0), 1), None);
}

#[test]
fn bus_reset_drops_a_pending_reset() {
    let mut pending = true;
    bus_reset(&mut pending);
    assert!(!take_reset(&mut pending));
}

#[test]
fn any_number_of_resets_is_reported_once() {
    let mut pending = false;
    assert!(control_out(0, &req(0xFF, 0), &mut pending));
    assert!(!control_out(0, &req(0x01, 0), &mut pending));
    assert!(control_out(0, &req(0xFF, 0), &mut pending));
    assert!(take_reset(&mut pending));
    assert!(!take_reset(&mut pending));
    assert!(!control_out(0, &req(0x01, 0), &mut pending));
    assert!(!take_reset(&mut pending));
}
