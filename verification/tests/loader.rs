use deluge::elf::{ElfError, LoadResult, SramSegDesc};
use deluge::loader::{LoadAction, LoadPhase, LoadSession};

struct MemFile {
    bytes: Vec<u8>,
    pos: usize,
    piece: usize,
    fail_seek: bool,
    fail_read_at: Option<usize>,
}

#[derive(Debug, PartialEq)]
enum Effect {
    Write(u32, Vec<u8>),
    Zero(u32, u32),
    Report(u32, u32),
}

fn run(file: &mut MemFile) -> (Result<LoadResult, ElfError>, Vec<Effect>) {
    let mut s = LoadSession::new();
    let mut chunk = vec![0u8; 512];
    let mut effects = Vec::new();
    for _ in 0..100_000 {
        match s.action() {
            LoadAction::Read { max } => {
                if file.fail_read_at == Some(file.pos) {
                    s.on_read(None);
                    continue;
                }
                let n = max.min(file.piece).min(file.bytes.len().saturating_sub(file.pos));
                chunk[..n].copy_from_slice(&file.bytes[file.pos..file.pos + n]);
                file.pos += n;
                s.on_read(Some(&chunk[..n]));
            }
            LoadAction::Seek { off } => {
                file.pos = off as usize;
                s.on_seek(!file.fail_seek);
            }
            LoadAction::Write { addr, n } => {
                effects.push(Effect::Write(addr, chunk[..n].to_vec()));
                s.on_done();
            }
            LoadAction::Zero { addr, len } => {
                effects.push(Effect::Zero(addr, len));
                s.on_done();
            }
            LoadAction::Report { copied, total } => {
                effects.push(Effect::Report(copied, total));
                s.on_done();
            }
            LoadAction::Done(r) => return (Ok(r), effects),
            LoadAction::Fail(e) => return (Err(e), effects),
        }
    }
    panic!("the load did not end");
}

fn file(bytes: Vec<u8>) -> MemFile {
    MemFile { bytes, pos: 0, piece: usize::MAX, fail_seek: false, fail_read_at: None }
}

fn header(phnum: u16) -> Vec<u8> {
    let mut h = vec![0u8; 52];
    h[0..4].copy_from_slice(&[0x7F, 0x45, 0x4C, 0x46]);
    h[4] = 1;
    h[5] = 1;
    h[16..18].copy_from_slice(&2u16.to_le_bytes());
    h[18..20].copy_from_slice(&0x28u16.to_le_bytes());
    h[24..28].copy_from_slice(&0x0C00_0040u32.to_le_bytes());
    h[28..32].copy_from_slice(&52u32.to_le_bytes());
    h[42..44].copy_from_slice(&32u16.to_le_bytes());
    h[44..46].copy_from_slice(&phnum.to_le_bytes());
    h
}

fn phdr(p_type: u32, offset: u32, paddr: u32, filesz: u32, memsz: u32) -> Vec<u8> {
    let mut p = vec![0u8; 32];
    p[0..4].copy_from_slice(&p_type.to_le_bytes());
    p[4..8].copy_from_slice(&offset.to_le_bytes());
    p[8..12].copy_from_slice(&paddr.to_le_bytes());
    p[12..16].copy_from_slice(&paddr.to_le_bytes());
    p[16..20].copy_from_slice(&filesz.to_le_bytes());
    p[20..24].copy_from_slice(&memsz.to_le_bytes());
    p
}

/// An image with an SDRAM segment of 600 file bytes (700 in memory), an
/// upper-SRAM segment of 16 bytes, a retention-RAM segment and a note.
fn image(second_paddr: u32) -> Vec<u8> {
    let mut img = header(4);
    img.extend(phdr(1, 0x100, 0x0C00_0000, 600, 700));
    img.extend(phdr(1, 0x400, second_paddr, 16, 16));
    img.extend(phdr(1, 0x420, 0x2000_0000, 8, 8));
    img.extend(phdr(4, 0, 0, 0, 0));
    img.resize(0x430, 0);
    for (i, b) in img[0x100..0x358].iter_mut().enumerate() {
        *b = (i % 251) as u8;
    }
    for b in img[0x400..0x410].iter_mut() {
        *b = 0xAB;
    }
    img
}

#[test]
fn loads_direct_and_staged_segments_with_progress() {
    let img = image(0x2002_0000);
    let (r, effects) = run(&mut file(img.clone()));
    let r = r.expect("the image loads");
    assert_eq!(r.entry, 0x0C00_0040);
    assert_eq!(r.n_sram, 1);
    assert_eq!(r.sram_descs, vec![SramSegDesc { src: 0x0F00_0000, dst: 0x2002_0000, filesz: 16, zero_extra: 0 }]);
    assert_eq!(effects, vec![
        Effect::Report(0, 616),
        Effect::Write(0x0C00_0000, img[0x100..0x300].to_vec()),
        Effect::Report(512, 616),
        Effect::Write(0x0C00_0200, img[0x300..0x358].to_vec()),
        Effect::Report(600, 616),
        Effect::Zero(0x0C00_0258, 100),
        Effect::Write(0x0F00_0000, vec![0xAB; 16]),
        Effect::Report(616, 616),
    ]);
}

#[test]
fn short_reads_assemble_the_same_load() {
    let img = image(0x2002_0000);
    let mut f = file(img.clone());
    f.piece = 100;
    let (r, effects) = run(&mut f);
    assert_eq!(r.unwrap().n_sram, 1);
    let written: Vec<u8> = effects.iter().filter_map(|e| match e {
        Effect::Write(a, b) if *a < 0x0F00_0000 => Some(b.clone()),
        _ => None,
    }).flatten().collect();
    assert_eq!(written, img[0x100..0x358].to_vec());
    assert_eq!(effects.first(), Some(&Effect::Report(0, 616)));
    assert_eq!(effects.last(), Some(&Effect::Report(616, 616)));
}

#[test]
fn short_file_is_unexpected_eof_with_nothing_done() {
    let (r, effects) = run(&mut file(header(1)[..40].to_vec()));
    assert_eq!(r.err(), Some(ElfError::UnexpectedEof));
    assert!(effects.is_empty());
}

#[test]
fn bad_magic_and_format_are_refused_before_any_effect() {
    let mut h = header(1);
    h[0] = 0;
    let (r, effects) = run(&mut file(h));
    assert_eq!(r.err(), Some(ElfError::BadMagic));
    assert!(effects.is_empty());
    let mut h = header(9);
    h.resize(400, 0);
    let (r, effects) = run(&mut file(h));
    assert_eq!(r.err(), Some(ElfError::WrongFormat));
    assert!(effects.is_empty());
}

#[test]
fn truncated_table_is_unexpected_eof() {
    let mut img = header(2);
    img.extend(phdr(1, 0x100, 0x0C00_0000, 4, 4));
    let (r, effects) = run(&mut file(img));
    assert_eq!(r.err(), Some(ElfError::UnexpectedEof));
    assert!(effects.is_empty());
}

#[test]
fn bad_second_segment_is_refused_before_its_bytes_are_written() {
    let (r, effects) = run(&mut file(image(0x3000_0000)));
    assert_eq!(r.err(), Some(ElfError::BadLoadAddress));
    assert!(effects.iter().all(|e| match e {
        Effect::Write(a, b) => *a >= 0x0C00_0000 && *a as usize + b.len() <= 0x0C00_0258,
        Effect::Zero(a, l) => (*a, *l) == (0x0C00_0258, 100),
        Effect::Report(_, t) => *t == 616,
    }));
    assert_eq!(effects.first(), Some(&Effect::Report(0, 616)));
}

#[test]
fn segment_cut_short_is_unexpected_eof() {
    let mut img = image(0x2002_0000);
    img.truncate(0x200);
    let (r, _) = run(&mut file(img));
    assert_eq!(r.err(), Some(ElfError::UnexpectedEof));
}

#[test]
fn read_and_seek_failures_are_io_errors() {
    let mut f = file(image(0x2002_0000));
    f.fail_seek = true;
    assert_eq!(run(&mut f).0.err(), Some(ElfError::Io));
    let mut f = file(image(0x2002_0000));
    f.fail_read_at = Some(0x100);
    let (r, effects) = run(&mut f);
    assert_eq!(r.err(), Some(ElfError::Io));
    assert_eq!(effects, vec![Effect::Report(0, 616)]);
}

#[test]
fn empty_table_loads_with_one_full_report() {
    let (r, effects) = run(&mut file(header(0)));
    let r = r.unwrap();
    assert_eq!((r.entry, r.n_sram), (0x0C00_0040, 0));
    assert_eq!(effects, vec![Effect::Report(0, 0)]);
}

#[test]
fn session_starts_by_reading_the_header() {
    let s = LoadSession::new();
    assert_eq!(s.phase(), LoadPhase::Header);
    assert!(matches!(s.action(), LoadAction::Read { max: 52 }));
}
