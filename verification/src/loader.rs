//! Streaming an ELF image from a file into memory, as a state machine.
//!
//! The session asks for one outside action at a time ([`LoadSession::action`]):
//! read bytes, seek, copy a chunk to memory, zero a tail, report progress.
//! The caller performs it and hands the outcome back (`on_read`, `on_seek`,
//! `on_done`).  Every decision of the load is taken here: the header and
//! program-header checks, each segment's placement (validated before any of
//! its bytes is written), the read sizes, the end of file, the zero fill, the
//! progress reports and the result.
use vstd::prelude::*;
use crate::bytes::spec_le32;
use crate::elf::{
    after_copy_read, copy_request, counts_for_progress, lemma_plan_all_err_sticky, load_result,
    parse_header, plan_segment, slice_range, spec_parse_header, spec_percent, spec_plan_all,
    spec_plan_segment, spec_staged_descs, spec_total_bytes, total_load_bytes, ElfError, ElfHeader,
    LoadResult, Progress, SegmentPlan, CHUNK, ELF_HEADER_LEN, MAX_PHDRS, PHDR_LEN,
};

verus! {

/// The next outside action of a load.
pub enum LoadAction {
    /// Read up to `max` bytes from the file and hand them to
    /// [`LoadSession::on_read`].
    Read { max: usize },
    /// Move the file position to `off`, then call [`LoadSession::on_seek`].
    Seek { off: u32 },
    /// Copy the `n` bytes just read to memory at `addr`, then call
    /// [`LoadSession::on_done`].
    Write { addr: u32, n: usize },
    /// Zero `len` bytes of memory at `addr`, then call [`LoadSession::on_done`].
    Zero { addr: u32, len: u32 },
    /// Report `(copied, total)` progress, then call [`LoadSession::on_done`].
    Report { copied: u32, total: u32 },
    /// The image is loaded.
    Done(LoadResult),
    /// The load failed.
    Fail(ElfError),
}

/// Where a load stands.
#[derive(Clone, Copy, Debug, PartialEq, Eq, Structural)]
pub enum LoadPhase {
    /// Reading the 52-byte ELF header.
    Header,
    /// Seeking to the program-header table.
    SeekTable,
    /// Reading the program-header table.
    Table,
    /// The opening `(0, total)` report is owed.
    StartReport,
    /// Seeking to the current segment's file data.
    SeekSegment,
    /// Reading the next chunk of the current segment.
    Copy,
    /// The chunk just read is to be written.
    Write,
    /// A progress report is owed after a chunk.
    CopyReport,
    /// The current segment's tail past its file data is to be zeroed.
    Zero,
    /// Deciding the next program header (never seen between calls).
    Plan,
    /// The closing `(total, total)` report is owed.
    FinalReport,
    /// The image is loaded.
    Done,
    /// The load failed.
    Failed(ElfError),
}

/// What a load session has seen and done.
pub ghost struct LoadState {
    pub phase: LoadPhase,
    /// The header bytes received so far.
    pub hdr: Seq<u8>,
    /// The program-header table bytes received so far.
    pub table: Seq<u8>,
    /// The parsed header (meaningful once the header is complete).
    pub header: ElfHeader,
    /// Program headers decided so far.
    pub next_hdr: int,
    /// Plans of the finished segments, in header order.
    pub plans: Seq<SegmentPlan>,
    /// The segment being loaded.
    pub cur: SegmentPlan,
    /// File bytes of the current segment not yet read.
    pub remaining: u32,
    /// Where the next chunk of the current segment goes.
    pub dst: u32,
    /// Bytes read and not yet written.
    pub pending: nat,
    pub copied: u32,
    pub total: u32,
    pub last_percent: u8,
    /// Every progress report made, in order.
    pub reports: Seq<(u32, u32)>,
    /// Every memory write made: program-header index, address, length.
    pub writes: Seq<(int, u32, nat)>,
    /// Every zero fill made: program-header index, address, length.
    pub zeros: Seq<(int, u32, u32)>,
}

/// The 32 bytes of program header `j` in `table`.
pub open spec fn phdr_at(table: Seq<u8>, j: int) -> Seq<u8> {
    table.subrange(32 * j, 32 * j + 32)
}

/// `len` bytes at `addr` lie inside the file-data range of the validated
/// plan of program header `j`.
pub open spec fn inside_plan(table: Seq<u8>, j: int, addr: int, len: int) -> bool {
    &&& 0 <= j && 32 * j + 32 <= table.len()
    &&& spec_plan_segment(phdr_at(table, j)) matches Ok(Some(p)) && p.write_addr <= addr && addr
        + len <= p.write_addr + p.filesz
}

/// `len` bytes at `addr` are exactly the zero tail of the validated plan of
/// program header `j`.
pub open spec fn zero_tail_of(table: Seq<u8>, j: int, addr: int, len: int) -> bool {
    &&& 0 <= j && 32 * j + 32 <= table.len()
    &&& spec_plan_segment(phdr_at(table, j)) matches Ok(Some(p)) && addr == p.write_addr + p.filesz
        && len == p.memsz - p.filesz && len > 0
}

impl LoadState {
    pub open spec fn header_ok(self) -> bool {
        &&& self.hdr.len() == ELF_HEADER_LEN
        &&& spec_parse_header(self.hdr) == Ok::<ElfHeader, ElfError>(self.header)
        &&& self.header.phnum <= MAX_PHDRS
    }

    pub open spec fn table_ok(self) -> bool {
        &&& self.header_ok()
        &&& self.table.len() == self.header.phnum * PHDR_LEN
        &&& self.total == spec_total_bytes(self.table, self.header.phnum as int)
        &&& self.next_hdr <= self.header.phnum
        &&& forall|i: int| 0 <= i < self.plans.len() ==> #[trigger] self.plans[i].filesz
            <= self.plans[i].memsz
    }

    pub open spec fn quiet(self) -> bool {
        &&& self.reports.len() == 0
        &&& self.writes.len() == 0
        &&& self.zeros.len() == 0
    }

    pub open spec fn seg_ok(self) -> bool {
        &&& 1 <= self.next_hdr
        &&& spec_plan_segment(phdr_at(self.table, self.next_hdr - 1)) == Ok::<
            Option<SegmentPlan>,
            ElfError,
        >(Some(self.cur))
        &&& spec_plan_all(self.table, self.next_hdr) == Ok::<Seq<SegmentPlan>, ElfError>(
            self.plans.push(self.cur),
        )
        &&& self.cur.filesz <= self.cur.memsz
        &&& self.cur.write_addr + self.cur.memsz <= u32::MAX
        &&& self.remaining <= self.cur.filesz
    }

    pub open spec fn plans_ok(self) -> bool {
        spec_plan_all(self.table, self.next_hdr) == Ok::<Seq<SegmentPlan>, ElfError>(self.plans)
    }

    /// Bytes copied: those of the headers before the current segment, and
    /// the current segment's bytes read so far less `unwritten`.
    pub open spec fn copied_in_segment(self, unwritten: int) -> bool {
        self.copied == sat_u32(spec_total_bytes(self.table, self.next_hdr - 1) + self.cur.filesz
            - self.remaining - unwritten)
    }

    /// The last report made is the one the percentage was last taken from.
    pub open spec fn reported(self) -> bool {
        &&& self.reports.len() >= 1
        &&& self.last_percent == spec_percent(self.reports.last().0, self.total)
    }

    pub open spec fn report_owed(self) -> bool {
        &&& self.reports.len() >= 1
        &&& self.last_percent == spec_percent(self.copied, self.total)
    }

    /// The last report shows the load complete.
    pub open spec fn closed(self) -> bool {
        &&& self.reports.len() >= 1
        &&& (self.reports.last() == (self.total, self.total) || spec_percent(
            self.reports.last().0,
            self.total,
        ) >= 100)
    }

    /// Facts that hold in every phase.
    pub open spec fn always(self) -> bool {
        &&& 0 <= self.next_hdr <= MAX_PHDRS
        &&& 32 * self.next_hdr <= self.table.len()
        &&& self.hdr.len() <= ELF_HEADER_LEN
        &&& spec_plan_all(self.table, self.next_hdr) is Ok
        &&& forall|k: int|
            0 <= k < self.writes.len() ==> #[trigger] self.writes[k].0 < self.next_hdr
                && inside_plan(self.table, self.writes[k].0, self.writes[k].1 as int, self.writes[k].2 as int)
        &&& forall|k: int|
            0 <= k < self.zeros.len() ==> #[trigger] self.zeros[k].0 < self.next_hdr
                && zero_tail_of(self.table, self.zeros[k].0, self.zeros[k].1 as int, self.zeros[k].2 as int)
        &&& self.reports.len() > 0 ==> self.reports[0] == (0u32, self.total)
        &&& forall|k: int| #![trigger self.reports[k]] 0 <= k < self.reports.len() ==> self.reports[k].1
            == self.total && self.reports[k].0 <= self.copied
        &&& (self.writes.len() > 0 || self.zeros.len() > 0) ==> self.reports.len() > 0
    }

    /// The phase's own facts.
    pub open spec fn phase_ok(self) -> bool {
        match self.phase {
            LoadPhase::Header => self.hdr.len() < ELF_HEADER_LEN && self.table.len() == 0 && self.plans.len() == 0
                && self.next_hdr == 0 && self.quiet(),
            LoadPhase::SeekTable => self.header_ok() && self.table.len() == 0 && self.next_hdr == 0 && self.plans.len() == 0
                && self.quiet(),
            LoadPhase::Table => self.header_ok() && self.table.len() < self.header.phnum * PHDR_LEN && self.plans.len() == 0
                && self.next_hdr == 0 && self.quiet(),
            LoadPhase::StartReport => self.table_ok() && self.quiet() && self.next_hdr == 0
                && self.plans.len() == 0 && self.copied == 0 && self.last_percent == (if self.total
                == 0 {
                100u8
            } else {
                0u8
            }),
            LoadPhase::SeekSegment => self.table_ok() && self.seg_ok() && self.reported()
                && self.remaining == self.cur.filesz && self.dst == self.cur.write_addr
                && self.copied_in_segment(0),
            LoadPhase::Copy => self.table_ok() && self.seg_ok() && self.reported() && self.dst
                + self.remaining == self.cur.write_addr + self.cur.filesz && self.copied_in_segment(0),
            LoadPhase::Write => self.table_ok() && self.seg_ok() && self.reported() && 0
                < self.pending <= CHUNK && self.pending + self.remaining <= self.cur.filesz
                && self.dst + self.pending + self.remaining == self.cur.write_addr + self.cur.filesz
                && self.copied_in_segment(self.pending as int),
            LoadPhase::CopyReport => self.table_ok() && self.seg_ok() && self.report_owed()
                && self.dst + self.remaining == self.cur.write_addr + self.cur.filesz
                && self.copied_in_segment(0),
            LoadPhase::Zero => self.table_ok() && self.seg_ok() && self.reported() && self.remaining
                == 0 && self.dst == self.cur.write_addr + self.cur.filesz && self.cur.filesz
                < self.cur.memsz && self.copied_in_segment(0),
            LoadPhase::Plan => self.table_ok() && self.plans_ok() && self.reported() && self.copied
                == spec_total_bytes(self.table, self.next_hdr),
            LoadPhase::FinalReport => self.table_ok() && self.plans_ok() && self.reported()
                && self.next_hdr == self.header.phnum && self.last_percent < 100 && self.copied
                == spec_total_bytes(self.table, self.next_hdr),
            LoadPhase::Done => self.table_ok() && self.plans_ok() && self.closed() && self.next_hdr
                == self.header.phnum && self.copied == spec_total_bytes(self.table, self.next_hdr),
            LoadPhase::Failed(_) => true,
        }
    }

    /// The bytes a read may hand back in this phase.
    pub open spec fn read_max(self) -> int {
        match self.phase {
            LoadPhase::Header => ELF_HEADER_LEN - self.hdr.len(),
            LoadPhase::Table => self.header.phnum * PHDR_LEN - self.table.len(),
            LoadPhase::Copy => if self.remaining < CHUNK {
                self.remaining as int
            } else {
                CHUNK as int
            },
            _ => 0,
        }
    }

    /// What the file and the header said is unchanged from `other`.
    pub open spec fn same_inputs(self, other: LoadState) -> bool {
        &&& self.hdr == other.hdr
        &&& self.table == other.table
        &&& self.header == other.header
        &&& self.total == other.total
    }

    /// No report, write or zero fill was made since `other`.
    pub open spec fn same_effects(self, other: LoadState) -> bool {
        &&& self.reports == other.reports
        &&& self.writes == other.writes
        &&& self.zeros == other.zeros
    }
}

/// A load in progress.
pub struct LoadSession {
    phase: LoadPhase,
    hdr_buf: Vec<u8>,
    table: Vec<u8>,
    header: ElfHeader,
    next_hdr: usize,
    plans: Vec<SegmentPlan>,
    cur: SegmentPlan,
    remaining: u32,
    dst: u32,
    pending: usize,
    progress: Progress,
    reports: Ghost<Seq<(u32, u32)>>,
    writes: Ghost<Seq<(int, u32, nat)>>,
    zeros: Ghost<Seq<(int, u32, u32)>>,
}

impl View for LoadSession {
    type V = LoadState;

    closed spec fn view(&self) -> LoadState {
        LoadState {
            phase: self.phase,
            hdr: self.hdr_buf@,
            table: self.table@,
            header: self.header,
            next_hdr: self.next_hdr as int,
            plans: self.plans@,
            cur: self.cur,
            remaining: self.remaining,
            dst: self.dst,
            pending: self.pending as nat,
            copied: self.progress.copied,
            total: self.progress.total,
            last_percent: self.progress.last_percent,
            reports: self.reports@,
            writes: self.writes@,
            zeros: self.zeros@,
        }
    }
}

fn empty_plan() -> (p: SegmentPlan) {
    SegmentPlan { file_offset: 0, paddr: 0, write_addr: 0, filesz: 0, memsz: 0, staged: false }
}

/// Append `src` to `dst`.
fn append(dst: &mut Vec<u8>, src: &[u8])
    ensures
        final(dst)@ == old(dst)@ + src@,
{
    let mut k: usize = 0;
    while k < src.len()
        invariant
            k <= src@.len(),
            dst@ == old(dst)@ + src@.subrange(0, k as int),
        decreases src@.len() - k,
    {
        dst.push(src[k]);
        k += 1;
        assert(src@.subrange(0, k as int) == src@.subrange(0, k as int - 1).push(src@[k - 1]));
    }
    assert(src@.subrange(0, src@.len() as int) == src@);
}

/// `x` saturated to `u32`.
pub open spec fn sat_u32(x: int) -> u32 {
    if x > u32::MAX { u32::MAX } else { x as u32 }
}

/// A program header whose plan is decided counts towards the progress
/// total exactly when it is loaded, with its file size.
proof fn lemma_plan_counts(table: Seq<u8>, j: int)
    requires
        0 <= j,
        32 * j + 32 <= table.len(),
        spec_plan_segment(phdr_at(table, j)) is Ok,
    ensures
        counts_for_progress(table, j) == (spec_plan_segment(phdr_at(table, j)) matches Ok(Some(_))),
        spec_plan_segment(phdr_at(table, j)) matches Ok(Some(p)) ==> spec_le32(table, 32 * j + 16)
            == p.filesz,
{
    let ph = phdr_at(table, j);
    assert forall|o: int| 0 <= o < 32 implies ph[o] == table[32 * j + o] by {}
    assert(spec_le32(ph, 0) == spec_le32(table, 32 * j));
    assert(spec_le32(ph, 12) == spec_le32(table, 32 * j + 12));
    assert(spec_le32(ph, 16) == spec_le32(table, 32 * j + 16));
}

/// Deciding one more program header adds its file size to the progress
/// total when it is loaded, and nothing otherwise.
proof fn lemma_total_step(table: Seq<u8>, j: int)
    requires
        0 <= j,
        32 * j + 32 <= table.len(),
        spec_plan_segment(phdr_at(table, j)) is Ok,
    ensures
        spec_total_bytes(table, j + 1) == match spec_plan_segment(phdr_at(table, j)) {
            Ok(Some(p)) => sat_u32(spec_total_bytes(table, j) + p.filesz),
            _ => spec_total_bytes(table, j),
        },
{
    lemma_plan_counts(table, j);
    assert(32 * (j + 1 - 1) + 16 == 32 * j + 16);
}

/// A planned segment fits in the address space with its zero tail.
proof fn lemma_plan_fits(ph: Seq<u8>, p: SegmentPlan)
    requires
        spec_plan_segment(ph) == Ok::<Option<SegmentPlan>, ElfError>(Some(p)),
    ensures
        p.filesz <= p.memsz,
        p.write_addr + p.memsz <= u32::MAX,
{
}

/// Planning one more program header extends the plans of the earlier ones.
proof fn lemma_plan_all_step(table: Seq<u8>, i: int)
    requires
        0 <= i,
        32 * i + 32 <= table.len(),
        spec_plan_all(table, i) is Ok,
    ensures
        spec_plan_all(table, i + 1) == (match spec_plan_segment(phdr_at(table, i)) {
            Err(e) => Err(e),
            Ok(None) => spec_plan_all(table, i),
            Ok(Some(p)) => Ok(spec_plan_all(table, i)->Ok_0.push(p)),
        }),
{
    assert(32 * (i + 1 - 1) == 32 * i);
    assert(32 * (i + 1) == 32 * i + 32);
    assert(table.subrange(32 * (i + 1 - 1), 32 * (i + 1)) == phdr_at(table, i));
}

/// [`LoadState::always`] depends only on the inputs, the headers decided
/// and the effects.
proof fn lemma_always_frame(a: LoadState, b: LoadState)
    requires
        a.always(),
        b.same_inputs(a),
        b.same_effects(a),
        b.next_hdr == a.next_hdr,
        b.copied == a.copied,
    ensures
        b.always(),
{
}

/// A write inside the plan of a decided header keeps
/// [`LoadState::always`], as more bytes copied do.
proof fn lemma_always_after_write(a: LoadState, b: LoadState, j: int, addr: u32, n: nat)
    requires
        a.always(),
        a.reports.len() > 0,
        b.same_inputs(a),
        b.reports == a.reports,
        b.zeros == a.zeros,
        b.next_hdr == a.next_hdr,
        b.copied >= a.copied,
        j < a.next_hdr,
        inside_plan(a.table, j, addr as int, n as int),
        b.writes == a.writes.push((j, addr, n)),
    ensures
        b.always(),
{
    assert forall|k: int| 0 <= k < b.writes.len() implies #[trigger] b.writes[k].0 < b.next_hdr
        && inside_plan(b.table, b.writes[k].0, b.writes[k].1 as int, b.writes[k].2 as int) by {
        if k < a.writes.len() {
            assert(b.writes[k] == a.writes[k]);
        }
    }
    assert forall|k: int| #![trigger b.reports[k]] 0 <= k < b.reports.len() implies b.reports[k].1
        == b.total && b.reports[k].0 <= b.copied by {
        assert(b.reports[k] == a.reports[k]);
    }
}

/// Every byte a load writes, and every zero fill, lies inside the plan of a
/// program header that was validated, together with every header before it,
/// before the write; and nothing is written before the opening report.
pub proof fn lemma_load_writes_validated(s: &LoadSession)
    requires
        s.inv(),
    ensures
        forall|k: int|
            0 <= k < s@.writes.len() ==> inside_plan(
                s@.table,
                #[trigger] s@.writes[k].0,
                s@.writes[k].1 as int,
                s@.writes[k].2 as int,
            ) && spec_plan_all(s@.table, s@.writes[k].0 + 1) is Ok,
        forall|k: int|
            0 <= k < s@.zeros.len() ==> zero_tail_of(
                s@.table,
                #[trigger] s@.zeros[k].0,
                s@.zeros[k].1 as int,
                s@.zeros[k].2 as int,
            ) && spec_plan_all(s@.table, s@.zeros[k].0 + 1) is Ok,
        s@.writes.len() > 0 || s@.zeros.len() > 0 ==> s@.reports.len() > 0 && s@.reports[0] == (
        0u32, s@.total),
{
    let v = s@;
    assert forall|k: int| 0 <= k < v.writes.len() implies spec_plan_all(v.table, #[trigger] v.writes[k].0 + 1) is Ok by {
        if spec_plan_all(v.table, v.writes[k].0 + 1) is Err {
            lemma_plan_all_err_sticky(v.table, v.writes[k].0 + 1, v.next_hdr);
        }
    }
    assert forall|k: int| 0 <= k < v.zeros.len() implies spec_plan_all(v.table, #[trigger] v.zeros[k].0 + 1) is Ok by {
        if spec_plan_all(v.table, v.zeros[k].0 + 1) is Err {
            lemma_plan_all_err_sticky(v.table, v.zeros[k].0 + 1, v.next_hdr);
        }
    }
}

/// The reports of a load: the first is `(0, total)`, every one is out of
/// `total`, none is made before the program-header table is read, and a
/// finished load has copied `total` bytes and its last report is
/// `(total, total)`.  A finished load's result comes from the header and the
/// plans of the whole table.
pub proof fn lemma_load_reports_and_result(s: &LoadSession)
    requires
        s.inv(),
    ensures
        s@.reports.len() > 0 ==> s@.reports[0] == (0u32, s@.total),
        forall|k: int| 0 <= k < s@.reports.len() ==> #[trigger] s@.reports[k].1 == s@.total,
        s@.phase == LoadPhase::Header || s@.phase == LoadPhase::SeekTable || s@.phase
            == LoadPhase::Table ==> s@.quiet(),
        s@.phase == LoadPhase::Done ==> {
            &&& s@.reports.len() >= 1
            &&& s@.reports.last() == (s@.total, s@.total) || spec_percent(
                s@.reports.last().0,
                s@.total,
            ) >= 100
            &&& spec_parse_header(s@.hdr) == Ok::<ElfHeader, ElfError>(s@.header)
            &&& spec_plan_all(s@.table, s@.header.phnum as int) == Ok::<
                Seq<SegmentPlan>,
                ElfError,
            >(s@.plans)
            &&& s@.total == spec_total_bytes(s@.table, s@.header.phnum as int)
            &&& s@.copied == s@.total
            &&& s@.reports.last() == (s@.total, s@.total)
        },
{
    if s@.phase == LoadPhase::Done {
        let last = s@.reports.last();
        let t = s@.total;
        assert(last == s@.reports[s@.reports.len() - 1]);
        assert(last.0 <= t);
        if last != (t, t) && t > 0 {
            let c = last.0;
            assert(c < t);
            if c * 100 > u32::MAX {
                assert((u32::MAX as int) / (t as int) < 100) by (nonlinear_arith)
                    requires
                        c < t,
                        c * 100 > u32::MAX,
                ;
            } else {
                assert((c * 100) / (t as int) < 100) by (nonlinear_arith)
                    requires
                        c < t,
                        t > 0,
                ;
            }
        }
    }
}

impl LoadSession {
    /// Invariant, including transient phases.
    pub open spec fn inv(&self) -> bool {
        self@.always() && self@.phase_ok()
    }

    /// Invariant between calls.
    pub open spec fn wf(&self) -> bool {
        &&& self.inv()
        &&& self@.phase != LoadPhase::Plan
        &&& self@.phase == LoadPhase::Copy ==> self@.remaining > 0
    }

    /// Decide program headers from `next_hdr` on, until a segment to load,
    /// a refusal, or the end of the table.
    fn settle(&mut self)
        requires
            old(self).inv(),
            old(self)@.phase == LoadPhase::Plan,
        ensures
            final(self).wf(),
            final(self)@.same_inputs(old(self)@),
            final(self)@.same_effects(old(self)@),
            final(self)@.copied == old(self)@.copied,
            final(self)@.phase == LoadPhase::SeekSegment || final(self)@.phase
                == LoadPhase::FinalReport || final(self)@.phase == LoadPhase::Done
                || final(self)@.phase is Failed,
            final(self)@.phase matches LoadPhase::Failed(e) ==> spec_plan_all(
                final(self)@.table,
                final(self)@.header.phnum as int,
            ) == Err::<Seq<SegmentPlan>, ElfError>(e),
    {
        let ghost start = self@;
        while self.next_hdr < self.header.phnum
            invariant
                start == old(self)@,
                self.inv(),
                self@.phase == LoadPhase::Plan,
                self@.same_inputs(start),
                self@.same_effects(start),
                self@.copied == start.copied,
            decreases self.header.phnum - self.next_hdr,
        {
            let i = self.next_hdr;
            let ph = slice_range(self.table.as_slice(), i * PHDR_LEN, i * PHDR_LEN + PHDR_LEN);
            assert(ph@ == phdr_at(self@.table, i as int));
            proof {
                lemma_plan_all_step(self@.table, i as int);
            }
            match plan_segment(ph.as_slice()) {
                Err(e) => {
                    let ghost here = self@;
                    proof {
                        lemma_plan_all_err_sticky(self@.table, i as int + 1, self.header.phnum as int);
                    }
                    self.phase = LoadPhase::Failed(e);
                    proof {
                        lemma_always_frame(here, self@);
                    }
                    return;
                },
                Ok(None) => {
                    proof {
                        lemma_total_step(self@.table, i as int);
                    }
                    self.next_hdr = i + 1;
                },
                Ok(Some(p)) => {
                    proof {
                        lemma_plan_fits(ph@, p);
                        lemma_total_step(self@.table, i as int);
                    }
                    self.next_hdr = i + 1;
                    self.cur = p;
                    self.remaining = p.filesz;
                    self.dst = p.write_addr;
                    self.phase = LoadPhase::SeekSegment;
                    assert(self@.copied_in_segment(0));
                    return;
                },
            }
        }
        let ghost here = self@;
        if self.progress.needs_final_report() {
            self.phase = LoadPhase::FinalReport;
        } else {
            self.phase = LoadPhase::Done;
        }
        proof {
            lemma_always_frame(here, self@);
        }
    }

    /// Continue the current segment after a chunk: read on, zero the tail,
    /// or go on to the next program header.
    fn after_chunk(&mut self)
        requires
            old(self).inv(),
            old(self)@.phase == LoadPhase::Copy,
        ensures
            final(self).wf(),
            final(self)@.same_inputs(old(self)@),
            final(self)@.same_effects(old(self)@),
            final(self)@.copied == old(self)@.copied,
            old(self)@.remaining > 0 ==> final(self)@ == old(self)@,
            old(self)@.remaining == 0 && old(self)@.cur.filesz < old(self)@.cur.memsz
                ==> final(self)@.phase == LoadPhase::Zero,
    {
        if self.remaining > 0 {
            return;
        }
        let ghost before = self@;
        if self.cur.filesz < self.cur.memsz {
            self.phase = LoadPhase::Zero;
            proof {
                lemma_always_frame(before, self@);
            }
            return;
        }
        self.plans.push(self.cur);
        self.phase = LoadPhase::Plan;
        proof {
            lemma_always_frame(before, self@);
            assert(self@.plans == before.plans.push(before.cur));
            assert(self@.phase_ok());
        }
        self.settle();
    }

    /// The table is complete: work out the progress total.
    fn table_complete(&mut self)
        requires
            old(self)@.always(),
            old(self)@.header_ok(),
            old(self)@.table.len() == old(self)@.header.phnum * PHDR_LEN,
            old(self)@.next_hdr == 0,
            old(self)@.plans.len() == 0,
            old(self)@.quiet(),
        ensures
            final(self).wf(),
            final(self)@.phase == LoadPhase::StartReport,
            final(self)@.hdr == old(self)@.hdr,
            final(self)@.table == old(self)@.table,
            final(self)@.header == old(self)@.header,
            final(self)@.total == spec_total_bytes(old(self)@.table, old(self)@.header.phnum as int),
            final(self)@.same_effects(old(self)@),
    {
        let total = total_load_bytes(self.table.as_slice(), self.header.phnum);
        self.progress = Progress::start(total);
        self.phase = LoadPhase::StartReport;
    }

    /// The file position was moved (`ok`) or the seek failed.
    pub fn on_seek(&mut self, ok: bool)
        requires
            old(self).wf(),
            old(self)@.phase == LoadPhase::SeekTable || old(self)@.phase == LoadPhase::SeekSegment,
        ensures
            final(self).wf(),
            final(self)@.hdr == old(self)@.hdr,
            final(self)@.table == old(self)@.table,
            final(self)@.header == old(self)@.header,
            old(self)@.phase == LoadPhase::SeekSegment ==> final(self)@.same_inputs(old(self)@),
            final(self)@.same_effects(old(self)@),
            !ok ==> final(self)@.phase == LoadPhase::Failed(ElfError::Io),
            ok && old(self)@.phase == LoadPhase::SeekTable ==> final(self)@.phase == (if old(self)@.header.phnum == 0 { LoadPhase::StartReport } else { LoadPhase::Table }),
            ok && old(self)@.phase == LoadPhase::SeekSegment && old(self)@.cur.filesz > 0
                ==> final(self)@.phase == LoadPhase::Copy && final(self)@.dst == old(self)@.dst
                && final(self)@.remaining == old(self)@.remaining,
    {
        let ghost before = self@;
        if !ok {
            self.phase = LoadPhase::Failed(ElfError::Io);
            proof {
                lemma_always_frame(before, self@);
            }
            return;
        }
        if self.phase == LoadPhase::SeekTable {
            if self.header.phnum == 0 {
                self.table_complete();
            } else {
                self.phase = LoadPhase::Table;
                proof {
                    lemma_always_frame(before, self@);
                }
            }
        } else {
            self.phase = LoadPhase::Copy;
            proof {
                lemma_always_frame(before, self@);
            }
            self.after_chunk();
        }
    }

    /// A read handed back `got`: the bytes read, or `None` where the read
    /// failed.  An empty read is the end of the file.
    pub fn on_read(&mut self, got: Option<&[u8]>)
        requires
            old(self).wf(),
            old(self)@.phase == LoadPhase::Header || old(self)@.phase == LoadPhase::Table
                || old(self)@.phase == LoadPhase::Copy,
            got matches Some(b) ==> b@.len() <= old(self)@.read_max(),
        ensures
            final(self).wf(),
            final(self)@.same_effects(old(self)@),
            got is None ==> final(self)@.phase == LoadPhase::Failed(ElfError::Io)
                && final(self)@.same_inputs(old(self)@),
            got matches Some(b) ==> (b@.len() == 0 ==> final(self)@.phase
                == LoadPhase::Failed(ElfError::UnexpectedEof) && final(self)@.same_inputs(old(self)@)),
            got matches Some(b) ==> (b@.len() > 0 && old(self)@.phase == LoadPhase::Header ==> {
                &&& final(self)@.hdr == old(self)@.hdr + b@
                &&& final(self)@.hdr.len() < ELF_HEADER_LEN ==> final(self)@.phase == LoadPhase::Header
                &&& final(self)@.hdr.len() == ELF_HEADER_LEN ==> match spec_parse_header(final(self)@.hdr) {
                    Err(e) => final(self)@.phase == LoadPhase::Failed(e),
                    Ok(h) => final(self)@.phase == LoadPhase::SeekTable && final(self)@.header == h,
                }
            }),
            got matches Some(b) ==> (b@.len() > 0 && old(self)@.phase == LoadPhase::Table ==> {
                &&& final(self)@.table == old(self)@.table + b@
                &&& final(self)@.hdr == old(self)@.hdr
                &&& final(self)@.header == old(self)@.header
                &&& final(self)@.phase == (if final(self)@.table.len() < old(self)@.header.phnum * PHDR_LEN { LoadPhase::Table } else { LoadPhase::StartReport })
            }),
            got matches Some(b) ==> (b@.len() > 0 && old(self)@.phase == LoadPhase::Copy ==> {
                &&& final(self)@.same_inputs(old(self)@)
                &&& final(self)@.phase == LoadPhase::Write
                &&& final(self)@.pending == b@.len()
                &&& final(self)@.remaining == old(self)@.remaining - b@.len()
                &&& final(self)@.dst == old(self)@.dst
            }),
    {
        let ghost before = self@;
        let b = match got {
            None => {
                self.phase = LoadPhase::Failed(ElfError::Io);
                proof {
                    lemma_always_frame(before, self@);
                }
                return;
            },
            Some(b) => b,
        };
        if b.len() == 0 {
            self.phase = LoadPhase::Failed(ElfError::UnexpectedEof);
            proof {
                lemma_always_frame(before, self@);
            }
            return;
        }
        if self.phase == LoadPhase::Header {
            append(&mut self.hdr_buf, b);
            if self.hdr_buf.len() < ELF_HEADER_LEN {
                return;
            }
            match parse_header(self.hdr_buf.as_slice()) {
                Err(e) => {
                    self.phase = LoadPhase::Failed(e);
                },
                Ok(h) => {
                    self.header = h;
                    self.phase = LoadPhase::SeekTable;
                },
            }
        } else if self.phase == LoadPhase::Table {
            append(&mut self.table, b);
            if self.table.len() < self.header.phnum * PHDR_LEN {
                return;
            }
            self.table_complete();
        } else {
            let n = b.len();
            let left = match after_copy_read(self.remaining, n) {
                Ok(left) => left,
                Err(e) => {
                    self.phase = LoadPhase::Failed(e);
                    proof {
                        lemma_always_frame(before, self@);
                    }
                    return;
                },
            };
            self.remaining = left;
            self.pending = n;
            self.phase = LoadPhase::Write;
            proof {
                lemma_always_frame(before, self@);
            }
        }
    }

    /// The write, zero fill or report the last action asked for is done.
    pub fn on_done(&mut self)
        requires
            old(self).wf(),
            old(self)@.phase == LoadPhase::StartReport || old(self)@.phase == LoadPhase::Write
                || old(self)@.phase == LoadPhase::CopyReport || old(self)@.phase == LoadPhase::Zero
                || old(self)@.phase == LoadPhase::FinalReport,
        ensures
            final(self).wf(),
            final(self)@.same_inputs(old(self)@),
            old(self)@.phase == LoadPhase::StartReport ==> {
                &&& final(self)@.reports == seq![(0u32, old(self)@.total)]
                &&& final(self)@.writes == old(self)@.writes
                &&& final(self)@.zeros == old(self)@.zeros
            },
            old(self)@.phase == LoadPhase::Write ==> {
                &&& final(self)@.writes == old(self)@.writes.push(
                    (old(self)@.next_hdr - 1, old(self)@.dst, old(self)@.pending),
                )
                &&& final(self)@.reports == old(self)@.reports
                &&& final(self)@.zeros == old(self)@.zeros
                &&& final(self)@.copied == (if old(self)@.copied + old(self)@.pending > u32::MAX {
                    u32::MAX as int
                } else {
                    old(self)@.copied + old(self)@.pending
                })
            },
            old(self)@.phase == LoadPhase::CopyReport ==> {
                &&& final(self)@.reports == old(self)@.reports.push((old(self)@.copied, old(self)@.total))
                &&& final(self)@.writes == old(self)@.writes
                &&& final(self)@.zeros == old(self)@.zeros
            },
            old(self)@.phase == LoadPhase::Zero ==> {
                &&& final(self)@.zeros == old(self)@.zeros.push(
                    (old(self)@.next_hdr - 1, old(self)@.dst, (old(self)@.cur.memsz - old(self)@.cur.filesz) as u32),
                )
                &&& final(self)@.reports == old(self)@.reports
                &&& final(self)@.writes == old(self)@.writes
            },
            old(self)@.phase == LoadPhase::FinalReport ==> {
                &&& final(self)@.reports == old(self)@.reports.push((old(self)@.total, old(self)@.total))
                &&& final(self)@.writes == old(self)@.writes
                &&& final(self)@.zeros == old(self)@.zeros
                &&& final(self)@.phase == LoadPhase::Done
            },
    {
        let ghost before = self@;
        match self.phase {
            LoadPhase::StartReport => {
                self.reports = Ghost(Seq::empty().push((0u32, self.progress.total)));
                self.phase = LoadPhase::Plan;
                proof {
                    assert(self@.reports.last() == (0u32, self@.total));
                    assert(self@.plans =~= Seq::<SegmentPlan>::empty());
                    assert(spec_percent(0, self@.total) == self@.last_percent);
                }
                self.settle();
            },
            LoadPhase::Write => {
                let n = self.pending;
                self.writes = Ghost(self.writes@.push((self.next_hdr as int - 1, self.dst, n as nat)));
                self.dst = self.dst + n as u32;
                self.pending = 0;
                let changed = self.progress.advance(n as u32);
                if changed {
                    self.phase = LoadPhase::CopyReport;
                    proof {
                        lemma_always_after_write(before, self@, before.next_hdr - 1, before.dst, before.pending);
                    }
                } else {
                    self.phase = LoadPhase::Copy;
                    proof {
                        lemma_always_after_write(before, self@, before.next_hdr - 1, before.dst, before.pending);
                    }
                    self.after_chunk();
                }
            },
            LoadPhase::CopyReport => {
                self.reports = Ghost(self.reports@.push((self.progress.copied, self.progress.total)));
                self.phase = LoadPhase::Copy;
                proof {
                    assert(self@.always());
                }
                self.after_chunk();
            },
            LoadPhase::Zero => {
                let ghost z = (self.next_hdr as int - 1, self.dst, (self.cur.memsz - self.cur.filesz) as u32);
                self.zeros = Ghost(self.zeros@.push(z));
                self.plans.push(self.cur);
                self.phase = LoadPhase::Plan;
                proof {
                    assert(self@.zeros[self@.zeros.len() - 1] == z);
                    assert(self@.always());
                    assert(self@.plans == before.plans.push(before.cur));
                    assert(self@.phase_ok());
                }
                self.settle();
            },
            _ => {
                self.reports = Ghost(self.reports@.push((self.progress.total, self.progress.total)));
                self.phase = LoadPhase::Done;
                proof {
                    assert(self@.always());
                }
            },
        }
    }

    /// A load that has read nothing yet.
    pub fn new() -> (s: LoadSession)
        ensures
            s.wf(),
            s@.phase == LoadPhase::Header,
            s@.hdr.len() == 0,
            s@.quiet(),
    {
        LoadSession {
            phase: LoadPhase::Header,
            hdr_buf: Vec::new(),
            table: Vec::new(),
            header: ElfHeader { entry: 0, phoff: 0, phnum: 0 },
            next_hdr: 0,
            plans: Vec::new(),
            cur: empty_plan(),
            remaining: 0,
            dst: 0,
            pending: 0,
            progress: Progress { copied: 0, total: 0, last_percent: 0 },
            reports: Ghost(Seq::empty()),
            writes: Ghost(Seq::empty()),
            zeros: Ghost(Seq::empty()),
        }
    }

    /// The phase the load is in.
    pub fn phase(&self) -> (p: LoadPhase)
        ensures
            p == self@.phase,
    {
        self.phase
    }

    /// The next outside action.
    pub fn action(&self) -> (a: LoadAction)
        requires
            self.wf(),
        ensures
            self@.phase == LoadPhase::Header ==> a == (LoadAction::Read {
                max: (ELF_HEADER_LEN - self@.hdr.len()) as usize }),
            self@.phase == LoadPhase::SeekTable ==> a == (LoadAction::Seek { off: self@.header.phoff }),
            self@.phase == LoadPhase::Table ==> a == (LoadAction::Read {
                max: (self@.header.phnum * PHDR_LEN - self@.table.len()) as usize }),
            self@.phase == LoadPhase::StartReport ==> a == (LoadAction::Report {
                copied: 0, total: self@.total }),
            self@.phase == LoadPhase::SeekSegment ==> a == (LoadAction::Seek {
                off: self@.cur.file_offset }),
            self@.phase == LoadPhase::Copy ==> a == (LoadAction::Read {
                max: self@.read_max() as usize }),
            self@.phase == LoadPhase::Write ==> a == (LoadAction::Write {
                addr: self@.dst, n: self@.pending as usize }),
            self@.phase == LoadPhase::CopyReport ==> a == (LoadAction::Report {
                copied: self@.copied, total: self@.total }),
            self@.phase == LoadPhase::Zero ==> a == (LoadAction::Zero {
                addr: self@.dst, len: (self@.cur.memsz - self@.cur.filesz) as u32 }),
            self@.phase == LoadPhase::FinalReport ==> a == (LoadAction::Report {
                copied: self@.total, total: self@.total }),
            self@.phase == LoadPhase::Done ==> (a matches LoadAction::Done(r) && r.entry
                == self@.header.entry && r.sram_descs@ == spec_staged_descs(self@.plans)
                && r.n_sram == r.sram_descs@.len()),
            self@.phase matches LoadPhase::Failed(e) ==> a == LoadAction::Fail(e),
    {
        match self.phase {
            LoadPhase::Header => LoadAction::Read { max: ELF_HEADER_LEN - self.hdr_buf.len() },
            LoadPhase::SeekTable => LoadAction::Seek { off: self.header.phoff },
            LoadPhase::Table => LoadAction::Read {
                max: self.header.phnum * PHDR_LEN - self.table.len(),
            },
            LoadPhase::StartReport => LoadAction::Report { copied: 0, total: self.progress.total },
            LoadPhase::SeekSegment => LoadAction::Seek { off: self.cur.file_offset },
            LoadPhase::Copy => LoadAction::Read { max: copy_request(self.remaining) },
            LoadPhase::Write => LoadAction::Write { addr: self.dst, n: self.pending },
            LoadPhase::CopyReport => {
                let (copied, total) = self.progress.report();
                LoadAction::Report { copied, total }
            },
            LoadPhase::Zero => {
                let (addr, len) = self.cur.zero_tail();
                LoadAction::Zero { addr, len }
            },
            LoadPhase::FinalReport => LoadAction::Report {
                copied: self.progress.total,
                total: self.progress.total,
            },
            LoadPhase::Done => LoadAction::Done(load_result(self.header.entry, &self.plans)),
            LoadPhase::Failed(e) => LoadAction::Fail(e),
            LoadPhase::Plan => {
                proof {
                    assert(false);
                }
                LoadAction::Fail(ElfError::Io)
            },
        }
    }
}

} // verus!
