use deluge::bot::{
    build_csw, capacity_data, data_in_len, data_in_outcome, decide, drain_after, drain_chunk,
    format_capacities_data, inquiry_data, mode_sense_data, parse_cbw, request_sense_data,
    test_unit_ready_outcome, DeviceInfo, Inquiry, ReadSession, ReadStep, ScsiAction, Sense,
    WriteSession, WriteStep, CSW_STATUS_FAILED, CSW_STATUS_GOOD,
};

fn inquiry() -> Inquiry {
    Inquiry { vendor: *b"Synthstr", product: *b"Deluge SD card  ", revision: *b"1.00" }
}

fn dev(ready: bool, wp: bool) -> DeviceInfo {
    DeviceInfo { ready, write_protected: wp, block_count: 1000, inquiry: inquiry() }
}

fn cbw(tag: u32, data_len: u32, flags: u8, cdb: &[u8]) -> Vec<u8> {
    let mut b = vec![0u8; 31];
    b[0..4].copy_from_slice(&0x4342_5355u32.to_le_bytes());
    b[4..8].copy_from_slice(&tag.to_le_bytes());
    b[8..12].copy_from_slice(&data_len.to_le_bytes());
    b[12] = flags;
    b[14] = cdb.len() as u8;
    b[15..15 + cdb.len()].copy_from_slice(cdb);
    b
}

#[test]
fn cbw_decodes_fields_and_rejects_bad_wrappers() {
    let raw = cbw(0xDEAD_BEEF, 512, 0x80, &[0x28, 0, 0, 0, 0, 8, 0, 0, 1, 0]);
    let c = parse_cbw(&raw, 31).unwrap();
    assert_eq!(c.tag, 0xDEAD_BEEF);
    assert_eq!(c.data_len, 512);
    assert!(c.dir_in);
    assert_eq!(c.cdb, vec![0x28, 0, 0, 0, 0, 8, 0, 0, 1, 0]);
    assert!(parse_cbw(&raw, 30).is_none());
    let mut bad = raw.clone();
    bad[0] = 0;
    assert!(parse_cbw(&bad, 31).is_none());
    let mut long = raw.clone();
    long[14] = 31;
    assert_eq!(parse_cbw(&long, 31).unwrap().cdb.len(), 16);
}

#[test]
fn csw_layout() {
    assert_eq!(
        build_csw(0x0102_0304, 0x200, CSW_STATUS_FAILED),
        vec![0x55, 0x53, 0x42, 0x53, 0x04, 0x03, 0x02, 0x01, 0x00, 0x02, 0x00, 0x00, 0x01]
    );
}

#[test]
fn response_payloads() {
    let s = request_sense_data(Sense::medium_error());
    assert_eq!(s.len(), 18);
    assert_eq!((s[0], s[2], s[7], s[12], s[13]), (0x70, 0x03, 0x0A, 0x11, 0x00));
    let q = inquiry_data(&inquiry());
    assert_eq!(q.len(), 36);
    assert_eq!(&q[..8], &[0x00, 0x80, 0x04, 0x02, 0x1F, 0x00, 0x00, 0x00]);
    assert_eq!(&q[8..16], b"Synthstr");
    assert_eq!(&q[32..36], b"1.00");
    assert_eq!(mode_sense_data(true), vec![0x03, 0x00, 0x80, 0x00]);
    assert_eq!(mode_sense_data(false), vec![0x03, 0x00, 0x00, 0x00]);
    assert_eq!(
        format_capacities_data(0x0001_0000),
        vec![0, 0, 0, 8, 0x00, 0x01, 0x00, 0x00, 0x02, 0x00, 0x02, 0x00]
    );
    assert_eq!(capacity_data(1000), vec![0, 0, 0x03, 0xE7, 0, 0, 0x02, 0x00]);
    assert_eq!(capacity_data(0), vec![0, 0, 0, 0, 0, 0, 0x02, 0x00]);
}

#[test]
fn short_data_in_outcomes() {
    assert_eq!(data_in_len(36, 18), 18);
    assert_eq!(data_in_len(8, 18), 8);
    assert_eq!(data_in_outcome(36, 18, false), (CSW_STATUS_GOOD, 18));
    assert_eq!(data_in_outcome(36, 18, true), (CSW_STATUS_FAILED, 36));
    assert_eq!(data_in_outcome(0, 18, true), (CSW_STATUS_GOOD, 0));
}

#[test]
fn decide_dispatches_opcodes() {
    let d = dev(true, false);
    let good = Sense::good();
    assert!(matches!(decide(&[], 0, true, &d, good), ScsiAction::Complete { status: 1, residue: 0, .. }));
    assert!(matches!(decide(&[0x00], 0, true, &d, good), ScsiAction::Complete { status: 0, .. }));
    assert!(matches!(decide(&[0x00], 0, true, &dev(false, false), good), ScsiAction::EnsureReady));
    match decide(&[0x03], 18, true, &d, Sense::not_ready()) {
        ScsiAction::DataIn { data, sense } => {
            assert_eq!(data[2], 0x02);
            assert_eq!(sense, Sense::good());
        }
        _ => panic!("REQUEST SENSE must return data"),
    }
    assert!(matches!(decide(&[0x12], 36, true, &d, good), ScsiAction::DataIn { .. }));
    assert!(matches!(decide(&[0x25], 8, true, &dev(false, false), good),
        ScsiAction::Complete { status: 1, sense: Sense { key: 0x02, .. }, .. }));
    assert!(matches!(decide(&[0x28, 0, 0, 0, 1, 0, 0, 0, 2, 0], 1024, true, &d, good),
        ScsiAction::Read { lba: 256, blocks: 2 }));
    assert!(matches!(decide(&[0x2A, 0, 1, 0, 0, 0, 0, 1, 0, 0], 0, false, &d, good),
        ScsiAction::Write { lba: 0x0100_0000, blocks: 256 }));
    assert!(matches!(decide(&[0x2A, 0, 0, 0, 0, 0, 0, 0, 1, 0], 512, false, &dev(true, true), good),
        ScsiAction::DrainAndFail { drain: 512, status: 1, residue: 512, sense: Sense { key: 0x07, asc: 0x27, ascq: 0 } }));
    assert!(matches!(decide(&[0x28, 0, 0], 512, true, &d, good),
        ScsiAction::Complete { status: 1, sense: Sense { key: 0x05, .. }, .. }));
    assert!(matches!(decide(&[0x55], 24, false, &d, good),
        ScsiAction::DrainAndFail { drain: 24, status: 1, residue: 24, sense: Sense { key: 0x05, asc: 0x20, ascq: 0 } }));
    assert!(matches!(decide(&[0x55], 24, true, &d, good),
        ScsiAction::Complete { status: 1, residue: 24, .. }));
    assert!(matches!(decide(&[0x1E], 0, false, &d, good), ScsiAction::Complete { status: 0, .. }));
}

#[test]
fn test_unit_ready_after_init() {
    assert_eq!(test_unit_ready_outcome(true, 0), (CSW_STATUS_GOOD, 0, Sense::good()));
    assert_eq!(test_unit_ready_outcome(false, 0), (CSW_STATUS_FAILED, 0, Sense::not_ready()));
}

#[test]
fn read_session_streams_all_chunks() {
    let mut s = ReadSession::new(10, 100, 100 * 512);
    assert_eq!(s.step(), ReadStep::Read { lba: 10, count: 64, bank: 0 });
    s.on_read(true);
    assert_eq!(
        s.step(),
        ReadStep::SendAndRead { send_bank: 0, bytes: 64 * 512, lba: 74, count: 36 }
    );
    s.on_send_and_read(true, true);
    assert_eq!(s.step(), ReadStep::Send { bank: 1, bytes: 36 * 512 });
    s.on_send(true);
    assert_eq!(s.step(), ReadStep::Finish { status: CSW_STATUS_GOOD, residue: 0, sense: None });
}

#[test]
fn read_session_failures() {
    let mut s = ReadSession::new(0, 10, 10 * 512);
    s.on_read(false);
    assert_eq!(
        s.step(),
        ReadStep::Finish { status: CSW_STATUS_FAILED, residue: 5120, sense: Some(Sense::medium_error()) }
    );
    let mut s = ReadSession::new(0, 100, 100 * 512);
    s.on_read(true);
    s.on_send_and_read(false, true);
    assert_eq!(s.step(), ReadStep::Finish { status: CSW_STATUS_FAILED, residue: 51200, sense: None });
    let mut s = ReadSession::new(0, 100, 100 * 512);
    s.on_read(true);
    s.on_send_and_read(true, false);
    assert_eq!(
        s.step(),
        ReadStep::Finish {
            status: CSW_STATUS_FAILED,
            residue: 51200 - 32768,
            sense: Some(Sense::medium_error())
        }
    );
}

#[test]
fn write_session_commits_all_chunks() {
    let mut s = WriteSession::new(5, 70, 70 * 512);
    assert_eq!(s.step(), WriteStep::Receive { bank: 0, bytes: 64 * 512 });
    s.on_receive(Some(64 * 512));
    assert_eq!(
        s.step(),
        WriteStep::WriteAndReceive { write_bank: 0, lba: 5, count: 64, bytes: 6 * 512 }
    );
    s.on_write_and_receive(true, Some(6 * 512));
    assert_eq!(s.step(), WriteStep::Write { bank: 1, lba: 69, count: 6 });
    s.on_write(true);
    assert_eq!(s.step(), WriteStep::Finish { status: CSW_STATUS_GOOD, residue: 0, sense: None });
}

#[test]
fn write_session_failures() {
    let mut s = WriteSession::new(0, 4, 4 * 512);
    s.on_receive(Some(100));
    assert_eq!(s.step(), WriteStep::Finish { status: CSW_STATUS_FAILED, residue: 2048, sense: None });
    let mut s = WriteSession::new(0, 4, 4 * 512);
    s.on_receive(Some(2048));
    s.on_write(false);
    assert_eq!(
        s.step(),
        WriteStep::Finish { status: CSW_STATUS_FAILED, residue: 0, sense: Some(Sense::medium_error()) }
    );
}

#[test]
fn drain_helpers() {
    assert_eq!(drain_chunk(100), 100);
    assert_eq!(drain_chunk(100_000), 32768);
    assert_eq!(drain_after(1000, Some(300)), Some(700));
    assert_eq!(drain_after(1000, Some(3000)), Some(0));
    assert_eq!(drain_after(1000, Some(0)), None);
    assert_eq!(drain_after(1000, None), None);
}
