//! The first-stage-bootloader flasher's decisions: its failure modes, reading
//! the image into the staging buffer, the 4 KB write plan with progress, the
//! read-back check, the whole run as a state machine ([`FlashSession`]), and
//! the layout of its two screens.
use crate::oled::WIDTH;
use vstd::prelude::*;

verus! {

/// The largest image: the first-stage bootloader region (256 KB).
pub const MAX_IMAGE_LEN: usize = 0x0004_0000;
/// Programming step between progress updates.
pub const CHUNK: usize = 0x1000;
/// Width of a character of the built-in font, spacing included.
pub const CHAR_W: usize = 6;

/// Why flashing failed.
#[derive(Clone, Copy, Debug, PartialEq, Eq, Structural)]
pub enum FlashErr {
    NoFlash,
    SdInit,
    Fat,
    NotFound,
    Empty,
    TooBig,
    Verify,
}

impl FlashErr {
    /// The short line shown on the display.
    pub fn line(&self) -> (l: &'static str)
        ensures
            l@ == match *self {
                FlashErr::NoFlash => "NO SPI FLASH"@,
                FlashErr::SdInit => "NO SD CARD"@,
                FlashErr::Fat => "BAD FILESYSTEM"@,
                FlashErr::NotFound => "NO BOOT.BIN"@,
                FlashErr::Empty => "EMPTY FILE"@,
                FlashErr::TooBig => "FILE TOO BIG"@,
                FlashErr::Verify => "VERIFY FAILED"@,
            },
    {
        match self {
            FlashErr::NoFlash => "NO SPI FLASH",
            FlashErr::SdInit => "NO SD CARD",
            FlashErr::Fat => "BAD FILESYSTEM",
            FlashErr::NotFound => "NO BOOT.BIN",
            FlashErr::Empty => "EMPTY FILE",
            FlashErr::TooBig => "FILE TOO BIG",
            FlashErr::Verify => "VERIFY FAILED",
        }
    }

    /// The longer message for the log.
    pub fn log(&self) -> (l: &'static str)
        ensures
            l@ == match *self {
                FlashErr::NoFlash => "SPI flash did not respond to RDID"@,
                FlashErr::SdInit => "SD card init failed"@,
                FlashErr::Fat => "could not open FAT volume / root dir"@,
                FlashErr::NotFound => "BOOT.BIN not found in card root"@,
                FlashErr::Empty => "BOOT.BIN is empty"@,
                FlashErr::TooBig => "BOOT.BIN larger than the FSB sector (256 KB)"@,
                FlashErr::Verify => "read-back verify mismatch"@,
            },
    {
        match self {
            FlashErr::NoFlash => "SPI flash did not respond to RDID",
            FlashErr::SdInit => "SD card init failed",
            FlashErr::Fat => "could not open FAT volume / root dir",
            FlashErr::NotFound => "BOOT.BIN not found in card root",
            FlashErr::Empty => "BOOT.BIN is empty",
            FlashErr::TooBig => "BOOT.BIN larger than the FSB sector (256 KB)",
            FlashErr::Verify => "read-back verify mismatch",
        }
    }
}

/// The flash answered its JEDEC ID read: the manufacturer byte is neither
/// 0x00 nor 0xFF.
pub fn check_flash_id(id: [u8; 3]) -> (r: Result<(), FlashErr>)
    ensures
        r == if id[0] == 0x00 || id[0] == 0xFF { Err(FlashErr::NoFlash) } else { Ok(()) },
{
    if id[0] == 0x00 || id[0] == 0xFF {
        Err(FlashErr::NoFlash)
    } else {
        Ok(())
    }
}

/// The next read of the image file into the staging buffer.
#[derive(Clone, Copy, Debug, PartialEq, Eq, Structural)]
pub enum ReadRequest {
    /// Read into `staging[from..MAX_IMAGE_LEN]`.
    Fill { from: usize },
    /// The buffer is full: read one more byte to tell "exactly full" from
    /// "too big".
    Peek,
}

/// Reading the image: how many bytes the staging buffer holds so far.
pub struct StagingRead {
    pub total: usize,
}

/// The result of an image of `total` bytes that ended cleanly.
pub open spec fn spec_finish(total: usize) -> Result<usize, FlashErr> {
    if total == 0 { Err(FlashErr::Empty) } else { Ok(total) }
}

impl StagingRead {
    /// Nothing read yet.
    pub fn new() -> (r: StagingRead)
        ensures
            r.total == 0,
    {
        StagingRead { total: 0 }
    }

    /// What to read next.
    pub fn next(&self) -> (q: ReadRequest)
        requires
            self.total <= MAX_IMAGE_LEN,
        ensures
            q == if self.total == MAX_IMAGE_LEN {
                ReadRequest::Peek
            } else {
                ReadRequest::Fill { from: self.total }
            },
    {
        if self.total == MAX_IMAGE_LEN {
            ReadRequest::Peek
        } else {
            ReadRequest::Fill { from: self.total }
        }
    }

    /// A fill read returned `n` bytes: end of file (0) finishes the image
    /// (empty is an error), otherwise the bytes are kept and reading goes on.
    pub fn on_fill(&mut self, n: usize) -> (r: Option<Result<usize, FlashErr>>)
        requires
            old(self).total < MAX_IMAGE_LEN,
            n <= MAX_IMAGE_LEN - old(self).total,
        ensures
            n == 0 ==> r == Some(spec_finish(old(self).total)) && final(self).total == old(self).total,
            n != 0 ==> r is None && final(self).total == old(self).total + n,
    {
        if n == 0 {
            return Some(if self.total == 0 { Err(FlashErr::Empty) } else { Ok(self.total) });
        }
        self.total = self.total + n;
        None
    }

    /// The peek past a full buffer returned `n` bytes: any byte means the file
    /// is too big.
    pub fn on_peek(&self, n: usize) -> (r: Result<usize, FlashErr>)
        ensures
            r == if n != 0 { Err(FlashErr::TooBig) } else { spec_finish(self.total) },
    {
        if n != 0 {
            return Err(FlashErr::TooBig);
        }
        if self.total == 0 { Err(FlashErr::Empty) } else { Ok(self.total) }
    }
}

/// One programming step: `len` bytes at image offset `off`, after which
/// `percent` of the image is written.
#[derive(Clone, Copy, Debug, PartialEq, Eq, Structural)]
pub struct WriteStep {
    pub off: usize,
    pub len: usize,
    pub percent: u8,
}

/// The programming steps from `off` on, [`CHUNK`] bytes at a time.
pub open spec fn spec_write_steps(off: int, total: int) -> Seq<WriteStep>
    decreases total - off,
{
    if off >= total || total <= 0 {
        Seq::empty()
    } else {
        let n = if CHUNK < total - off { CHUNK as int } else { total - off };
        seq![WriteStep { off: off as usize, len: n as usize, percent: ((off + n) * 100 / total) as u8 }]
            + spec_write_steps(off + n, total)
    }
}

/// The programming steps for an image of `total` bytes.
pub fn write_plan(total: usize) -> (steps: Vec<WriteStep>)
    requires
        0 < total <= MAX_IMAGE_LEN,
    ensures
        steps@ == spec_write_steps(0, total as int),
        forall|i: int| 0 <= i < steps@.len() ==> steps@[i].percent <= 100,
{
    let mut off: usize = 0;
    let mut steps: Vec<WriteStep> = Vec::new();
    while off < total
        invariant
            0 < total <= MAX_IMAGE_LEN,
            off <= total,
            steps@ + spec_write_steps(off as int, total as int) == spec_write_steps(0, total as int),
            forall|i: int| 0 <= i < steps@.len() ==> steps@[i].percent <= 100,
        decreases total - off,
    {
        let n = if CHUNK < total - off { CHUNK } else { total - off };
        let done = off + n;
        assert(done * 100 / (total as int) <= 100) by (nonlinear_arith)
            requires
                done <= total,
                total > 0,
        ;
        let pct = (done * 100 / total) as u8;
        let ghost prev = steps@;
        let ghost old_off = off;
        steps.push(WriteStep { off, len: n, percent: pct });
        off = done;
        proof {
            assert(spec_write_steps(old_off as int, total as int) == seq![
                WriteStep { off: old_off, len: n, percent: pct },
            ] + spec_write_steps(off as int, total as int));
            assert(steps@ + spec_write_steps(off as int, total as int) =~= prev + spec_write_steps(
                old_off as int,
                total as int,
            ));
        }
    }
    assert(steps@ =~= steps@ + spec_write_steps(off as int, total as int));
    steps
}

/// The read-back of the programmed flash matches the image byte for byte.
pub fn verify_image(image: &[u8], readback: &[u8]) -> (r: Result<(), FlashErr>)
    requires
        readback@.len() >= image@.len(),
    ensures
        r == if readback@.take(image@.len() as int) == image@ {
            Ok(())
        } else {
            Err(FlashErr::Verify)
        },
{
    let mut i: usize = 0;
    while i < image.len()
        invariant
            i <= image@.len(),
            readback@.len() >= image@.len(),
            forall|j: int| 0 <= j < i ==> readback@[j] == image@[j],
        decreases image@.len() - i,
    {
        if readback[i] != image[i] {
            assert(readback@.take(image@.len() as int)[i as int] != image@[i as int]);
            return Err(FlashErr::Verify);
        }
        i += 1;
    }
    assert(readback@.take(image@.len() as int) =~= image@);
    Ok(())
}

/// The programming steps from `off` on are consecutive pieces of at most
/// [`CHUNK`] bytes that start at `off` and end at `total`.
pub proof fn lemma_write_steps_cover(off: int, total: int)
    requires
        0 <= off < total <= MAX_IMAGE_LEN,
    ensures
        spec_write_steps(off, total).len() > 0,
        spec_write_steps(off, total)[0].off == off,
        spec_write_steps(off, total).last().off + spec_write_steps(off, total).last().len == total,
        forall|k: int|
            0 <= k < spec_write_steps(off, total).len() ==> 0 < #[trigger] spec_write_steps(
                off,
                total,
            )[k].len <= CHUNK,
        forall|k: int|
            0 <= k < spec_write_steps(off, total).len() - 1 ==> #[trigger] spec_write_steps(
                off,
                total,
            )[k + 1].off == spec_write_steps(off, total)[k].off + spec_write_steps(off, total)[k].len,
    decreases total - off,
{
    let n = if CHUNK < total - off { CHUNK as int } else { total - off };
    let s = spec_write_steps(off, total);
    let rest = spec_write_steps(off + n, total);
    assert(s == seq![WriteStep { off: off as usize, len: n as usize, percent: ((off + n) * 100 / total) as u8 }] + rest);
    assert(s[0].off == off as usize);
    if off + n < total {
        lemma_write_steps_cover(off + n, total);
        assert forall|k: int| 0 <= k < s.len() implies 0 < #[trigger] s[k].len <= CHUNK by {
            if k > 0 {
                assert(s[k] == rest[k - 1]);
            }
        }
        assert forall|k: int| 0 <= k < s.len() - 1 implies #[trigger] s[k + 1].off == s[k].off + s[k].len by {
            assert(s[k + 1] == rest[k]);
            if k > 0 {
                assert(s[k] == rest[k - 1]);
                assert(rest[(k - 1) + 1].off == rest[k - 1].off + rest[k - 1].len);
            }
        }
    } else {
        assert(rest.len() == 0);
        assert(s.len() == 1);
    }
}

/// The next outside action of a flashing run.
#[allow(inconsistent_fields)]
pub enum FlashAction {
    /// Read the flash chip's JEDEC id and hand it to [`FlashSession::on_id`].
    ReadId,
    /// Bring up the SD card and open the image file, then call
    /// [`FlashSession::on_opened`].
    OpenImage,
    /// Read the image file into `staging[from..MAX_IMAGE_LEN]`, then call
    /// [`FlashSession::on_read`].
    Fill { from: usize },
    /// Read one byte past a full staging buffer, then call
    /// [`FlashSession::on_read`].
    Peek,
    /// Erase the flash sectors covering `[0, len)`, then call
    /// [`FlashSession::on_done`].
    Erase { len: u32 },
    /// Program `staging[off..off + len]` at flash offset `off` and show
    /// `percent`, then call [`FlashSession::on_done`].
    Program { off: usize, len: usize, percent: u8 },
    /// Read `len` bytes back through the uncached flash mirror and hand them
    /// to [`FlashSession::on_readback`].
    Verify { len: usize },
    /// The image of this many bytes is written and verified.
    Done(usize),
    /// Flashing failed.
    Fail(FlashErr),
}

/// Where a flashing run stands.
#[derive(Clone, Copy, Debug, PartialEq, Eq, Structural)]
pub enum FlashPhase {
    CheckId,
    Open,
    Read,
    Erase,
    Program,
    Verify,
    Done,
    Failed(FlashErr),
}

/// What a flashing run has read and done.
pub ghost struct FlashState {
    pub phase: FlashPhase,
    /// Bytes of the image in the staging buffer.
    pub total: nat,
    /// The write plan (once the image is read).
    pub steps: Seq<WriteStep>,
    pub next_step: nat,
    /// The length of the range erased, once erased.
    pub erased: Option<nat>,
    /// The programming steps performed, in order.
    pub programmed: Seq<WriteStep>,
}

/// A flashing run: check the chip, read the image, erase, program, verify.
pub struct FlashSession {
    phase: FlashPhase,
    reader: StagingRead,
    steps: Vec<WriteStep>,
    next_step: usize,
    erased: Ghost<Option<nat>>,
    programmed: Ghost<Seq<WriteStep>>,
}

impl View for FlashSession {
    type V = FlashState;

    closed spec fn view(&self) -> FlashState {
        FlashState {
            phase: self.phase,
            total: self.reader.total as nat,
            steps: self.steps@,
            next_step: self.next_step as nat,
            erased: self.erased@,
            programmed: self.programmed@,
        }
    }
}

impl FlashState {
    /// The plan of the image read is fixed.
    pub open spec fn planned(self) -> bool {
        &&& 0 < self.total <= MAX_IMAGE_LEN
        &&& self.steps == spec_write_steps(0, self.total as int)
        &&& self.steps.len() > 0
    }
}

impl FlashSession {
    /// Invariant between calls.
    pub open spec fn wf(&self) -> bool {
        let s = self@;
        &&& s.total <= MAX_IMAGE_LEN
        &&& s.programmed.len() > 0 ==> s.erased == Some(s.total) && 0 < s.total && s.programmed
            == spec_write_steps(0, s.total as int).take(s.programmed.len() as int)
        &&& match s.phase {
            FlashPhase::CheckId | FlashPhase::Open => s.total == 0 && s.erased is None
                && s.programmed.len() == 0,
            FlashPhase::Read => s.erased is None && s.programmed.len() == 0,
            FlashPhase::Erase => s.planned() && s.erased is None && s.programmed.len() == 0
                && s.next_step == 0,
            FlashPhase::Program => s.planned() && s.erased == Some(s.total) && s.next_step
                < s.steps.len() && s.programmed == s.steps.take(s.next_step as int),
            FlashPhase::Verify | FlashPhase::Done => s.planned() && s.erased == Some(s.total)
                && s.programmed == s.steps,
            FlashPhase::Failed(_) => true,
        }
    }

    /// A run that has done nothing yet.
    pub fn new() -> (r: FlashSession)
        ensures
            r.wf(),
            r@.phase == FlashPhase::CheckId,
            r@.programmed.len() == 0,
            r@.erased is None,
    {
        FlashSession {
            phase: FlashPhase::CheckId,
            reader: StagingRead::new(),
            steps: Vec::new(),
            next_step: 0,
            erased: Ghost(None),
            programmed: Ghost(Seq::empty()),
        }
    }

    /// The phase the run is in.
    pub fn phase(&self) -> (p: FlashPhase)
        ensures
            p == self@.phase,
    {
        self.phase
    }

    /// The next outside action.
    pub fn action(&self) -> (a: FlashAction)
        requires
            self.wf(),
        ensures
            self@.phase == FlashPhase::CheckId ==> a == FlashAction::ReadId,
            self@.phase == FlashPhase::Open ==> a == FlashAction::OpenImage,
            self@.phase == FlashPhase::Read ==> a == if self@.total == MAX_IMAGE_LEN {
                FlashAction::Peek
            } else {
                FlashAction::Fill { from: self@.total as usize }
            },
            self@.phase == FlashPhase::Erase ==> a == (FlashAction::Erase { len: self@.total as u32 }),
            self@.phase == FlashPhase::Program ==> a == (FlashAction::Program {
                off: self@.steps[self@.next_step as int].off,
                len: self@.steps[self@.next_step as int].len,
                percent: self@.steps[self@.next_step as int].percent,
            }),
            self@.phase == FlashPhase::Verify ==> a == (FlashAction::Verify { len: self@.total as usize }),
            self@.phase == FlashPhase::Done ==> a == FlashAction::Done(self@.total as usize),
            self@.phase matches FlashPhase::Failed(e) ==> a == FlashAction::Fail(e),
    {
        match self.phase {
            FlashPhase::CheckId => FlashAction::ReadId,
            FlashPhase::Open => FlashAction::OpenImage,
            FlashPhase::Read => match self.reader.next() {
                ReadRequest::Peek => FlashAction::Peek,
                ReadRequest::Fill { from } => FlashAction::Fill { from },
            },
            FlashPhase::Erase => FlashAction::Erase { len: self.reader.total as u32 },
            FlashPhase::Program => {
                let st = self.steps[self.next_step];
                FlashAction::Program { off: st.off, len: st.len, percent: st.percent }
            },
            FlashPhase::Verify => FlashAction::Verify { len: self.reader.total },
            FlashPhase::Done => FlashAction::Done(self.reader.total),
            FlashPhase::Failed(e) => FlashAction::Fail(e),
        }
    }

    /// The chip answered `id`: no chip (`00` or `FF` maker byte) fails the run.
    pub fn on_id(&mut self, id: [u8; 3])
        requires
            old(self).wf(),
            old(self)@.phase == FlashPhase::CheckId,
        ensures
            final(self).wf(),
            final(self)@.phase == if id[0] == 0x00 || id[0] == 0xFF {
                FlashPhase::Failed(FlashErr::NoFlash)
            } else {
                FlashPhase::Open
            },
            final(self)@.total == 0,
    {
        match check_flash_id(id) {
            Ok(()) => self.phase = FlashPhase::Open,
            Err(e) => self.phase = FlashPhase::Failed(e),
        }
    }

    /// The image file was opened (`None`), or opening it failed for the
    /// reason given.
    pub fn on_opened(&mut self, err: Option<FlashErr>)
        requires
            old(self).wf(),
            old(self)@.phase == FlashPhase::Open,
        ensures
            final(self).wf(),
            final(self)@.phase == match err {
                Some(e) => FlashPhase::Failed(e),
                None => FlashPhase::Read,
            },
            final(self)@.total == 0,
    {
        match err {
            Some(e) => self.phase = FlashPhase::Failed(e),
            None => self.phase = FlashPhase::Read,
        }
    }

    /// A read of the image file returned `got` bytes (`None`: the read
    /// failed, a filesystem error).
    pub fn on_read(&mut self, got: Option<usize>)
        requires
            old(self).wf(),
            old(self)@.phase == FlashPhase::Read,
            got matches Some(n) ==> old(self)@.total + n <= MAX_IMAGE_LEN || old(self)@.total
                == MAX_IMAGE_LEN,
        ensures
            final(self).wf(),
            final(self)@.programmed == old(self)@.programmed,
            final(self)@.erased == old(self)@.erased,
            got is None ==> final(self)@.phase == FlashPhase::Failed(FlashErr::Fat),
            got matches Some(n) ==> (old(self)@.total == MAX_IMAGE_LEN ==> final(self)@.phase == if n
                != 0 {
                FlashPhase::Failed(FlashErr::TooBig)
            } else {
                FlashPhase::Erase
            }),
            got matches Some(n) ==> (old(self)@.total < MAX_IMAGE_LEN ==> (if n != 0 {
                final(self)@.phase == FlashPhase::Read && final(self)@.total == old(self)@.total + n
            } else if old(self)@.total == 0 {
                final(self)@.phase == FlashPhase::Failed(FlashErr::Empty)
            } else {
                final(self)@.phase == FlashPhase::Erase && final(self)@.total == old(self)@.total
            })),
            final(self)@.phase == FlashPhase::Erase ==> final(self)@.planned(),
    {
        let n = match got {
            None => {
                self.phase = FlashPhase::Failed(FlashErr::Fat);
                return;
            },
            Some(n) => n,
        };
        let r = if self.reader.total == MAX_IMAGE_LEN {
            self.reader.on_peek(n)
        } else {
            match self.reader.on_fill(n) {
                None => return,
                Some(r) => r,
            }
        };
        match r {
            Err(e) => self.phase = FlashPhase::Failed(e),
            Ok(total) => {
                self.steps = write_plan(total);
                proof {
                    lemma_write_steps_cover(0, total as int);
                }
                self.next_step = 0;
                self.phase = FlashPhase::Erase;
            },
        }
    }

    /// The erase or the programming step the last action asked for is done.
    pub fn on_done(&mut self)
        requires
            old(self).wf(),
            old(self)@.phase == FlashPhase::Erase || old(self)@.phase == FlashPhase::Program,
        ensures
            final(self).wf(),
            final(self)@.total == old(self)@.total,
            old(self)@.phase == FlashPhase::Erase ==> final(self)@.phase == FlashPhase::Program
                && final(self)@.erased == Some(old(self)@.total) && final(self)@.programmed.len() == 0,
            old(self)@.phase == FlashPhase::Program ==> {
                &&& final(self)@.programmed == old(self)@.programmed.push(
                    old(self)@.steps[old(self)@.next_step as int],
                )
                &&& final(self)@.phase == if old(self)@.next_step + 1 == old(self)@.steps.len() {
                    FlashPhase::Verify
                } else {
                    FlashPhase::Program
                }
            },
    {
        if self.phase == FlashPhase::Erase {
            self.erased = Ghost(Some(self.reader.total as nat));
            self.phase = FlashPhase::Program;
            proof {
                assert(self@.programmed =~= self@.steps.take(0));
            }
            return;
        }
        let ghost st = self.steps@[self.next_step as int];
        self.programmed = Ghost(self.programmed@.push(st));
        let len = self.steps.len();
        self.next_step = self.next_step + 1;
        proof {
            assert(self@.programmed =~= self@.steps.take(self.next_step as int));
        }
        if self.next_step == len {
            self.phase = FlashPhase::Verify;
            proof {
                assert(self@.steps.take(self@.steps.len() as int) =~= self@.steps);
            }
        }
    }

    /// The flash read back as `readback` through the uncached mirror; the
    /// run succeeds when its first `total` bytes are the staged `image`.
    pub fn on_readback(&mut self, image: &[u8], readback: &[u8])
        requires
            old(self).wf(),
            old(self)@.phase == FlashPhase::Verify,
            image@.len() == old(self)@.total,
            readback@.len() >= image@.len(),
        ensures
            final(self).wf(),
            final(self)@.programmed == old(self)@.programmed,
            final(self)@.phase == if readback@.take(image@.len() as int) == image@ {
                FlashPhase::Done
            } else {
                FlashPhase::Failed(FlashErr::Verify)
            },
    {
        match verify_image(image, readback) {
            Ok(()) => self.phase = FlashPhase::Done,
            Err(e) => self.phase = FlashPhase::Failed(e),
        }
    }
}

/// What a flashing run has written: the erase covers the image, every
/// programming step is the next piece of the write plan, and once the run
/// verifies (or is done) the steps programmed are exactly the plan, whose
/// consecutive pieces cover `[0, total)` of the staged image.
pub proof fn lemma_flash_programs_image(s: &FlashSession)
    requires
        s.wf(),
    ensures
        s@.programmed.len() > 0 ==> s@.erased == Some(s@.total) && s@.programmed
            == spec_write_steps(0, s@.total as int).take(s@.programmed.len() as int),
        s@.phase == FlashPhase::Verify || s@.phase == FlashPhase::Done ==> {
            let p = s@.programmed;
            &&& p == spec_write_steps(0, s@.total as int)
            &&& p.len() > 0 && p[0].off == 0
            &&& p.last().off + p.last().len == s@.total
            &&& forall|k: int| 0 <= k < p.len() - 1 ==> #[trigger] p[k + 1].off == p[k].off + p[k].len
        },
{
    if s@.phase == FlashPhase::Verify || s@.phase == FlashPhase::Done {
        lemma_write_steps_cover(0, s@.total as int);
    }
}

/// The left edge that centres `len` characters on the display (0 when they
/// do not fit).
pub fn centered_x(len: usize) -> (x: usize)
    requires
        len * CHAR_W <= usize::MAX,
    ensures
        x == if len * CHAR_W < WIDTH { (WIDTH - len * CHAR_W) / 2 } else { 0 },
{
    let w = len * CHAR_W;
    let room = if w < WIDTH { WIDTH - w } else { 0 };
    room / 2
}

/// Left edge of the progress bar.
pub const BAR_X: usize = 8;
/// Width of the progress bar's frame.
pub const BAR_W: usize = 112;

/// Width of the filled part of the progress bar at `percent` (held to 100)
/// inside its frame.
pub fn progress_fill_width(percent: u8) -> (w: usize)
    ensures
        w == (BAR_W - 2) * (if percent < 100 { percent as int } else { 100 }) / 100,
        w <= BAR_W - 2,
{
    let pct: usize = if percent < 100 { percent as usize } else { 100 };
    assert((BAR_W - 2) * pct / 100 <= BAR_W - 2) by (nonlinear_arith)
        requires
            pct <= 100,
    ;
    (BAR_W - 2) * pct / 100
}

} // verus!
