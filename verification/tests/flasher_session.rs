use deluge::flasher::{FlashAction, FlashErr, FlashPhase, FlashSession, MAX_IMAGE_LEN};

#[derive(Debug, PartialEq)]
enum Step {
    Erase(u32),
    Program(usize, usize, u8),
    Verify(usize),
}

struct Rig {
    id: [u8; 3],
    open: Option<FlashErr>,
    file: Vec<u8>,
    pos: usize,
    piece: usize,
    read_fails: bool,
    corrupt: bool,
}

fn rig(file: Vec<u8>) -> Rig {
    Rig { id: [0xEF, 0x40, 0x18], open: None, file, pos: 0, piece: 1000, read_fails: false, corrupt: false }
}

fn flash(r: &mut Rig) -> (Result<usize, FlashErr>, Vec<Step>, Vec<u8>) {
    let mut s = FlashSession::new();
    let mut staging = vec![0u8; MAX_IMAGE_LEN];
    let mut flash = vec![0xFFu8; MAX_IMAGE_LEN];
    let mut steps = Vec::new();
    for _ in 0..10_000 {
        match s.action() {
            FlashAction::ReadId => s.on_id(r.id),
            FlashAction::OpenImage => s.on_opened(r.open),
            FlashAction::Fill { from } => {
                if r.read_fails {
                    s.on_read(None);
                    continue;
                }
                let n = r.piece.min(MAX_IMAGE_LEN - from).min(r.file.len() - r.pos);
                staging[from..from + n].copy_from_slice(&r.file[r.pos..r.pos + n]);
                r.pos += n;
                s.on_read(Some(n));
            }
            FlashAction::Peek => {
                let n = (r.file.len() - r.pos).min(1);
                r.pos += n;
                s.on_read(Some(n));
            }
            FlashAction::Erase { len } => {
                steps.push(Step::Erase(len));
                s.on_done();
            }
            FlashAction::Program { off, len, percent } => {
                steps.push(Step::Program(off, len, percent));
                flash[off..off + len].copy_from_slice(&staging[off..off + len]);
                s.on_done();
            }
            FlashAction::Verify { len } => {
                steps.push(Step::Verify(len));
                if r.corrupt {
                    flash[len / 2] ^= 1;
                }
                s.on_readback(&staging[..len], &flash[..len]);
            }
            FlashAction::Done(n) => return (Ok(n), steps, flash),
            FlashAction::Fail(e) => return (Err(e), steps, flash),
        }
    }
    panic!("the run did not end");
}

fn image(len: usize) -> Vec<u8> {
    (0..len).map(|i| (i * 7 % 256) as u8).collect()
}

#[test]
fn flashes_and_verifies_an_image_in_4k_steps() {
    let img = image(5000);
    let (r, steps, flash) = flash(&mut rig(img.clone()));
    assert_eq!(r, Ok(5000));
    assert_eq!(steps, vec![
        Step::Erase(5000),
        Step::Program(0, 4096, 81),
        Step::Program(4096, 904, 100),
        Step::Verify(5000),
    ]);
    assert_eq!(&flash[..5000], &img[..]);
}

#[test]
fn missing_chip_fails_before_anything_else() {
    let mut r = rig(image(10));
    r.id = [0xFF, 0xFF, 0xFF];
    let (res, steps, _) = flash(&mut r);
    assert_eq!(res, Err(FlashErr::NoFlash));
    assert!(steps.is_empty());
    r.id = [0x00, 0x40, 0x18];
    assert_eq!(flash(&mut r).0, Err(FlashErr::NoFlash));
}

#[test]
fn open_and_read_failures_are_reported() {
    let mut r = rig(image(10));
    r.open = Some(FlashErr::NotFound);
    assert_eq!(flash(&mut r).0, Err(FlashErr::NotFound));
    let mut r = rig(image(10));
    r.read_fails = true;
    let (res, steps, _) = flash(&mut r);
    assert_eq!(res, Err(FlashErr::Fat));
    assert!(steps.is_empty());
}

#[test]
fn empty_and_oversized_images_are_refused_without_erasing() {
    let (res, steps, _) = flash(&mut rig(Vec::new()));
    assert_eq!(res, Err(FlashErr::Empty));
    assert!(steps.is_empty());
    let (res, steps, _) = flash(&mut rig(image(MAX_IMAGE_LEN + 1)));
    assert_eq!(res, Err(FlashErr::TooBig));
    assert!(steps.is_empty());
}

#[test]
fn exactly_full_image_is_flashed() {
    let (res, steps, _) = flash(&mut rig(image(MAX_IMAGE_LEN)));
    assert_eq!(res, Ok(MAX_IMAGE_LEN));
    assert_eq!(steps.len(), 1 + MAX_IMAGE_LEN / 4096 + 1);
    assert_eq!(steps[1], Step::Program(0, 4096, 1));
}

#[test]
fn read_back_mismatch_fails_the_run() {
    let mut r = rig(image(300));
    r.corrupt = true;
    let (res, steps, _) = flash(&mut r);
    assert_eq!(res, Err(FlashErr::Verify));
    assert_eq!(steps.last(), Some(&Step::Verify(300)));
}

#[test]
fn run_starts_with_the_chip_check() {
    let s = FlashSession::new();
    assert_eq!(s.phase(), FlashPhase::CheckId);
    assert!(matches!(s.action(), FlashAction::ReadId));
}
