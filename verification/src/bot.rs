//! USB Mass Storage Bulk-Only Transport (BOT) + SCSI command decisions.
//!
//! The three-phase BOT flow per command is
//! `CBW (31 B, bulk OUT) → [optional data phase] → CSW (13 B, bulk IN)`.
//! This module decodes the CBW, decides what each SCSI command does from the
//! medium's state, builds the response and status bytes, and drives the
//! double-buffered READ(10)/WRITE(10) data phases as state machines.  Moving
//! bytes over the endpoints and to/from the medium is the caller's job.
use vstd::prelude::*;
use crate::bytes::{le32, spec_le32};

verus! {

pub const CBW_SIGNATURE: u32 = 0x4342_5355;
pub const CSW_SIGNATURE: u32 = 0x5342_5355;
pub const CBW_LEN: usize = 31;
pub const CSW_LEN: usize = 13;
pub const CSW_STATUS_GOOD: u8 = 0x00;
pub const CSW_STATUS_FAILED: u8 = 0x01;

/// SCSI logical block size.
pub const BLOCK_SIZE: u32 = 512;
/// Per-iteration transfer chunk in sectors (64 × 512 = 32 KiB).
pub const CHUNK_SECTORS: u32 = 64;
/// Bytes in one bounce buffer.
pub const BUF_BYTES: usize = 32768;

/// SCSI sense data (key, additional sense code, qualifier).
#[derive(Clone, Copy, Debug, PartialEq, Eq, Structural)]
pub struct Sense {
    pub key: u8,
    pub asc: u8,
    pub ascq: u8,
}

impl Sense {
    pub open spec fn spec_good() -> Sense { Sense { key: 0x00, asc: 0x00, ascq: 0x00 } }
    pub open spec fn spec_not_ready() -> Sense { Sense { key: 0x02, asc: 0x3A, ascq: 0x00 } }
    pub open spec fn spec_medium_error() -> Sense { Sense { key: 0x03, asc: 0x11, ascq: 0x00 } }
    pub open spec fn spec_invalid_command() -> Sense { Sense { key: 0x05, asc: 0x20, ascq: 0x00 } }
    pub open spec fn spec_data_protect() -> Sense { Sense { key: 0x07, asc: 0x27, ascq: 0x00 } }

    /// No error.
    pub fn good() -> (s: Sense) ensures s == Sense::spec_good() { Sense { key: 0x00, asc: 0x00, ascq: 0x00 } }
    /// Medium not present.
    pub fn not_ready() -> (s: Sense) ensures s == Sense::spec_not_ready() { Sense { key: 0x02, asc: 0x3A, ascq: 0x00 } }
    /// Unrecovered read/write error.
    pub fn medium_error() -> (s: Sense) ensures s == Sense::spec_medium_error() { Sense { key: 0x03, asc: 0x11, ascq: 0x00 } }
    /// Invalid command operation code.
    pub fn invalid_command() -> (s: Sense) ensures s == Sense::spec_invalid_command() { Sense { key: 0x05, asc: 0x20, ascq: 0x00 } }
    /// Write protected.
    pub fn data_protect() -> (s: Sense) ensures s == Sense::spec_data_protect() { Sense { key: 0x07, asc: 0x27, ascq: 0x00 } }
}

/// SCSI INQUIRY identity strings for the exposed logical unit.
#[derive(Clone, Copy, Debug)]
pub struct Inquiry {
    /// Vendor identification (8 ASCII bytes, space-padded).
    pub vendor: [u8; 8],
    /// Product identification (16 ASCII bytes, space-padded).
    pub product: [u8; 16],
    /// Product revision level (4 ASCII bytes).
    pub revision: [u8; 4],
}

/// What the command decisions need to know about the medium.
#[derive(Clone, Copy, Debug)]
pub struct DeviceInfo {
    /// Whether the medium is present/ready.
    pub ready: bool,
    /// Whether the medium is write-protected.
    pub write_protected: bool,
    /// Total number of addressable 512-byte blocks.
    pub block_count: u32,
    /// INQUIRY identity.
    pub inquiry: Inquiry,
}

/// A decoded Command Block Wrapper.
pub struct Cbw {
    pub tag: u32,
    pub data_len: u32,
    pub dir_in: bool,
    /// The command block (at most 16 bytes).
    pub cdb: Vec<u8>,
}

/// The command block length announced by a CBW, capped at 16.
pub open spec fn spec_cb_len(buf: Seq<u8>) -> int {
    let l = buf[14] % 32;
    if l > 16 { 16 } else { l as int }
}

/// Decode the first `n` received bytes of `buf` as a CBW: `None` for a short
/// transfer (under 31 bytes) or a bad signature.
pub fn parse_cbw(buf: &[u8], n: usize) -> (r: Option<Cbw>)
    requires
        buf@.len() >= CBW_LEN,
    ensures
        (n < CBW_LEN || spec_le32(buf@, 0) != CBW_SIGNATURE) ==> r is None,
        !(n < CBW_LEN || spec_le32(buf@, 0) != CBW_SIGNATURE) ==> (r matches Some(c) && {
            &&& c.tag as int == spec_le32(buf@, 4)
            &&& c.data_len as int == spec_le32(buf@, 8)
            &&& c.dir_in == (buf@[12] >= 0x80)
            &&& c.cdb@ == buf@.subrange(15, 15 + spec_cb_len(buf@))
        }),
{
    if n < CBW_LEN {
        return None;
    }
    let signature = le32(buf, 0);
    if signature != CBW_SIGNATURE {
        return None;
    }
    let tag = le32(buf, 4);
    let data_len = le32(buf, 8);
    let dir_in = buf[12] >= 0x80;
    let l = buf[14] % 32;
    let cb_len: usize = if l > 16 { 16 } else { l as usize };
    let mut cdb: Vec<u8> = Vec::new();
    let mut i: usize = 0;
    while i < cb_len
        invariant
            0 <= i <= cb_len <= 16,
            cb_len == spec_cb_len(buf@),
            buf@.len() >= CBW_LEN,
            cdb@ == buf@.subrange(15, 15 + i),
        decreases cb_len - i,
    {
        cdb.push(buf[15 + i]);
        i += 1;
    }
    Some(Cbw { tag, data_len, dir_in, cdb })
}

/// Little-endian bytes of a 32-bit value.
pub open spec fn spec_le_bytes(x: u32) -> Seq<u8> {
    seq![(x % 0x100) as u8, ((x / 0x100) % 0x100) as u8, ((x / 0x10000) % 0x100) as u8, (x / 0x100_0000) as u8]
}

/// Big-endian bytes of a 32-bit value.
pub open spec fn spec_be_bytes(x: u32) -> Seq<u8> {
    seq![(x / 0x100_0000) as u8, ((x / 0x10000) % 0x100) as u8, ((x / 0x100) % 0x100) as u8, (x % 0x100) as u8]
}

fn push_le32(v: &mut Vec<u8>, x: u32)
    ensures
        final(v)@ == old(v)@ + spec_le_bytes(x),
{
    v.push((x % 0x100) as u8);
    v.push(((x / 0x100) % 0x100) as u8);
    v.push(((x / 0x10000) % 0x100) as u8);
    v.push((x / 0x100_0000) as u8);
}

fn push_be32(v: &mut Vec<u8>, x: u32)
    ensures
        final(v)@ == old(v)@ + spec_be_bytes(x),
{
    v.push((x / 0x100_0000) as u8);
    v.push(((x / 0x10000) % 0x100) as u8);
    v.push(((x / 0x100) % 0x100) as u8);
    v.push((x % 0x100) as u8);
}

/// The 13-byte Command Status Wrapper.
pub open spec fn spec_csw(tag: u32, residue: u32, status: u8) -> Seq<u8> {
    spec_le_bytes(CSW_SIGNATURE) + spec_le_bytes(tag) + spec_le_bytes(residue) + seq![status]
}

/// A CSW reads back as the signature, the tag of its command, the residue
/// and the status, each little-endian word in its slot.
pub proof fn lemma_csw_fields(tag: u32, residue: u32, status: u8)
    ensures
        spec_csw(tag, residue, status).len() == CSW_LEN,
        spec_le32(spec_csw(tag, residue, status), 0) == CSW_SIGNATURE,
        spec_le32(spec_csw(tag, residue, status), 4) == tag,
        spec_le32(spec_csw(tag, residue, status), 8) == residue,
        spec_csw(tag, residue, status)[12] == status,
{
    let c = spec_csw(tag, residue, status);
    crate::uf2::lemma_le_bytes_round_trip(CSW_SIGNATURE);
    crate::uf2::lemma_le_bytes_round_trip(tag);
    crate::uf2::lemma_le_bytes_round_trip(residue);
    let a = spec_le_bytes(CSW_SIGNATURE);
    let b = spec_le_bytes(tag);
    let r = spec_le_bytes(residue);
    assert(c == a + b + r + seq![status]);
    assert(spec_le32(c, 0) == spec_le32(a, 0));
    assert(spec_le32(c, 4) == spec_le32(b, 0));
    assert(spec_le32(c, 8) == spec_le32(r, 0));
}

/// Build the 13-byte Command Status Wrapper.
pub fn build_csw(tag: u32, residue: u32, status: u8) -> (c: Vec<u8>)
    ensures
        c@ == spec_csw(tag, residue, status),
        c@.len() == CSW_LEN,
{
    let mut c: Vec<u8> = Vec::new();
    push_le32(&mut c, CSW_SIGNATURE);
    push_le32(&mut c, tag);
    push_le32(&mut c, residue);
    c.push(status);
    c
}

/// The fixed-format REQUEST SENSE response (18 bytes).
pub open spec fn spec_request_sense_data(s: Sense) -> Seq<u8> {
    seq![0x70u8, 0x00, s.key, 0x00, 0x00, 0x00, 0x00, 0x0A, 0x00, 0x00, 0x00, 0x00, s.asc, s.ascq, 0x00, 0x00, 0x00, 0x00]
}

/// The standard 36-byte INQUIRY response: removable direct-access device,
/// SPC-2, response format 2, additional length 31, then the identity strings.
pub open spec fn spec_inquiry_data(id: Inquiry) -> Seq<u8> {
    seq![0x00u8, 0x80, 0x04, 0x02, 0x1F, 0x00, 0x00, 0x00] + id.vendor@ + id.product@ + id.revision@
}

/// The 4-byte MODE SENSE(6) header with the write-protect flag.
pub open spec fn spec_mode_sense_data(wp: bool) -> Seq<u8> {
    seq![0x03u8, 0x00, if wp { 0x80u8 } else { 0x00u8 }, 0x00]
}

/// The READ FORMAT CAPACITIES response: list header (length 8), block count,
/// descriptor code 2 (formatted) and the 512-byte block length.
pub open spec fn spec_format_capacities_data(total: u32) -> Seq<u8> {
    seq![0x00u8, 0x00, 0x00, 0x08] + spec_be_bytes(total) + seq![0x02u8, 0x00, 0x02, 0x00]
}

/// The READ CAPACITY(10) response: last LBA and block size, big-endian.
pub open spec fn spec_capacity_data(block_count: u32) -> Seq<u8> {
    spec_be_bytes(if block_count == 0 { 0u32 } else { (block_count - 1) as u32 }) + spec_be_bytes(BLOCK_SIZE)
}

fn push_all(v: &mut Vec<u8>, s: &[u8])
    ensures
        final(v)@ == old(v)@ + s@,
{
    let mut i: usize = 0;
    while i < s.len()
        invariant
            0 <= i <= s@.len(),
            v@ == old(v)@ + s@.subrange(0, i as int),
        decreases s@.len() - i,
    {
        v.push(s[i]);
        i += 1;
        proof {
            assert(s@.subrange(0, i as int) =~= s@.subrange(0, i - 1) + seq![s@[i - 1]]);
        }
    }
    proof {
        assert(s@.subrange(0, s@.len() as int) =~= s@);
    }
}

/// The REQUEST SENSE response for `s`.
pub fn request_sense_data(s: Sense) -> (d: Vec<u8>)
    ensures
        d@ == spec_request_sense_data(s),
{
    let d = vec![0x70u8, 0x00, s.key, 0x00, 0x00, 0x00, 0x00, 0x0A, 0x00, 0x00, 0x00, 0x00, s.asc, s.ascq, 0x00, 0x00, 0x00, 0x00];
    proof {
        assert(d@ =~= spec_request_sense_data(s));
    }
    d
}

/// The INQUIRY response for identity `id`.
pub fn inquiry_data(id: &Inquiry) -> (d: Vec<u8>)
    ensures
        d@ == spec_inquiry_data(*id),
        d@.len() == 36,
{
    let mut d = vec![0x00u8, 0x80, 0x04, 0x02, 0x1F, 0x00, 0x00, 0x00];
    push_all(&mut d, id.vendor.as_slice());
    push_all(&mut d, id.product.as_slice());
    push_all(&mut d, id.revision.as_slice());
    proof {
        assert(d@ =~= spec_inquiry_data(*id));
    }
    d
}

/// The MODE SENSE(6) response.
pub fn mode_sense_data(wp: bool) -> (d: Vec<u8>)
    ensures
        d@ == spec_mode_sense_data(wp),
{
    let d = vec![0x03u8, 0x00, if wp { 0x80u8 } else { 0x00u8 }, 0x00];
    proof {
        assert(d@ =~= spec_mode_sense_data(wp));
    }
    d
}

/// The READ FORMAT CAPACITIES response for `total` blocks.
pub fn format_capacities_data(total: u32) -> (d: Vec<u8>)
    ensures
        d@ == spec_format_capacities_data(total),
{
    let mut d = vec![0x00u8, 0x00, 0x00, 0x08];
    push_be32(&mut d, total);
    d.push(0x02);
    d.push(0x00);
    d.push(0x02);
    d.push(0x00);
    proof {
        assert(d@ =~= spec_format_capacities_data(total));
    }
    d
}

/// The READ CAPACITY(10) response for a medium of `block_count` blocks.
pub fn capacity_data(block_count: u32) -> (d: Vec<u8>)
    ensures
        d@ == spec_capacity_data(block_count),
{
    let last = if block_count == 0 { 0 } else { block_count - 1 };
    let mut d: Vec<u8> = Vec::new();
    push_be32(&mut d, last);
    push_be32(&mut d, BLOCK_SIZE);
    d
}

/// The outcome of a short data-in phase of `len` bytes against a host
/// allocation of `data_len`: only `min(len, data_len)` bytes are sent; a failed
/// send fails the command with the whole `data_len` as residue, otherwise the
/// shortfall is the residue.
pub open spec fn spec_data_in_outcome(data_len: u32, len: int, send_failed: bool) -> (u8, u32) {
    let n = if len < data_len { len } else { data_len as int };
    if n > 0 && send_failed {
        (CSW_STATUS_FAILED, data_len)
    } else {
        (CSW_STATUS_GOOD, (data_len - n) as u32)
    }
}

/// Number of response bytes actually sent for a `len`-byte response.
pub fn data_in_len(data_len: u32, len: usize) -> (n: usize)
    ensures
        n as int == if len < data_len { len as int } else { data_len as int },
{
    if (len as u64) < (data_len as u64) {
        len
    } else {
        data_len as usize
    }
}

/// CSW status and residue after a short data-in phase.
pub fn data_in_outcome(data_len: u32, len: usize, send_failed: bool) -> (r: (u8, u32))
    ensures
        r == spec_data_in_outcome(data_len, len as int, send_failed),
{
    let n = data_in_len(data_len, len);
    if n > 0 && send_failed {
        (CSW_STATUS_FAILED, data_len)
    } else {
        (CSW_STATUS_GOOD, data_len - n as u32)
    }
}

/// What to do for one SCSI command.
pub enum ScsiAction {
    /// Send the status now; the sense becomes `sense`.
    Complete { status: u8, residue: u32, sense: Sense },
    /// Send `data` as a short data-in phase (see [`data_in_outcome`]); the
    /// sense becomes `sense`.
    DataIn { data: Vec<u8>, sense: Sense },
    /// The medium is not ready for TEST UNIT READY: try to (re)initialise it,
    /// then answer with [`test_unit_ready_outcome`].
    EnsureReady,
    /// Stream `blocks` sectors from `lba` to the host ([`ReadSession`]).
    Read { lba: u32, blocks: u32 },
    /// Stream `blocks` sectors from the host to `lba` ([`WriteSession`]).
    Write { lba: u32, blocks: u32 },
    /// Read and discard `drain` bytes of the host's data-out phase, then send
    /// `status` with `residue`; the medium is not touched and the sense
    /// becomes `sense`.
    DrainAndFail { drain: u32, status: u8, residue: u32, sense: Sense },
}

/// [`ScsiAction`] with its data as a sequence.
pub enum ScsiActionSpec {
    Complete { status: u8, residue: u32, sense: Sense },
    DataIn { data: Seq<u8>, sense: Sense },
    EnsureReady,
    Read { lba: u32, blocks: u32 },
    Write { lba: u32, blocks: u32 },
    DrainAndFail { drain: u32, status: u8, residue: u32, sense: Sense },
}

impl View for ScsiAction {
    type V = ScsiActionSpec;

    open spec fn view(&self) -> ScsiActionSpec {
        match self {
            ScsiAction::Complete { status, residue, sense } => ScsiActionSpec::Complete { status: *status, residue: *residue, sense: *sense },
            ScsiAction::DataIn { data, sense } => ScsiActionSpec::DataIn { data: data@, sense: *sense },
            ScsiAction::EnsureReady => ScsiActionSpec::EnsureReady,
            ScsiAction::Read { lba, blocks } => ScsiActionSpec::Read { lba: *lba, blocks: *blocks },
            ScsiAction::Write { lba, blocks } => ScsiActionSpec::Write { lba: *lba, blocks: *blocks },
            ScsiAction::DrainAndFail { drain, status, residue, sense } => ScsiActionSpec::DrainAndFail {
                drain: *drain,
                status: *status,
                residue: *residue,
                sense: *sense,
            },
        }
    }
}

/// The LBA field of a READ(10)/WRITE(10) command block.
pub open spec fn spec_cdb_lba(cdb: Seq<u8>) -> u32 {
    (cdb[2] * 0x100_0000 + cdb[3] * 0x10000 + cdb[4] * 0x100 + cdb[5]) as u32
}

/// The transfer-length field of a READ(10)/WRITE(10) command block.
pub open spec fn spec_cdb_blocks(cdb: Seq<u8>) -> u32 {
    (cdb[7] * 0x100 + cdb[8]) as u32
}

/// The decision for one SCSI command block against the medium state and the
/// current sense.
pub open spec fn spec_decide(cdb: Seq<u8>, data_len: u32, dir_in: bool, dev: DeviceInfo, sense: Sense) -> ScsiActionSpec {
    if cdb.len() == 0 {
        ScsiActionSpec::Complete { status: CSW_STATUS_FAILED, residue: data_len, sense: Sense::spec_invalid_command() }
    } else {
        let op = cdb[0];
        if op == 0x00 {
            if dev.ready {
                ScsiActionSpec::Complete { status: CSW_STATUS_GOOD, residue: data_len, sense: Sense::spec_good() }
            } else {
                ScsiActionSpec::EnsureReady
            }
        } else if op == 0x03 {
            ScsiActionSpec::DataIn { data: spec_request_sense_data(sense), sense: Sense::spec_good() }
        } else if op == 0x12 {
            ScsiActionSpec::DataIn { data: spec_inquiry_data(dev.inquiry), sense }
        } else if op == 0x1A {
            ScsiActionSpec::DataIn { data: spec_mode_sense_data(dev.write_protected), sense }
        } else if op == 0x1E || op == 0x1B || op == 0x35 {
            ScsiActionSpec::Complete { status: CSW_STATUS_GOOD, residue: data_len, sense: Sense::spec_good() }
        } else if op == 0x23 {
            ScsiActionSpec::DataIn { data: spec_format_capacities_data(dev.block_count), sense }
        } else if op == 0x25 {
            if dev.ready {
                ScsiActionSpec::DataIn { data: spec_capacity_data(dev.block_count), sense }
            } else {
                ScsiActionSpec::Complete { status: CSW_STATUS_FAILED, residue: data_len, sense: Sense::spec_not_ready() }
            }
        } else if op == 0x28 {
            if cdb.len() < 10 {
                ScsiActionSpec::Complete { status: CSW_STATUS_FAILED, residue: data_len, sense: Sense::spec_invalid_command() }
            } else {
                ScsiActionSpec::Read { lba: spec_cdb_lba(cdb), blocks: spec_cdb_blocks(cdb) }
            }
        } else if op == 0x2A {
            if cdb.len() < 10 {
                ScsiActionSpec::Complete { status: CSW_STATUS_FAILED, residue: data_len, sense: Sense::spec_invalid_command() }
            } else if dev.write_protected {
                ScsiActionSpec::DrainAndFail { drain: data_len, status: CSW_STATUS_FAILED, residue: data_len, sense: Sense::spec_data_protect() }
            } else {
                ScsiActionSpec::Write { lba: spec_cdb_lba(cdb), blocks: spec_cdb_blocks(cdb) }
            }
        } else if !dir_in && data_len > 0 {
            ScsiActionSpec::DrainAndFail { drain: data_len, status: CSW_STATUS_FAILED, residue: data_len, sense: Sense::spec_invalid_command() }
        } else {
            ScsiActionSpec::Complete { status: CSW_STATUS_FAILED, residue: data_len, sense: Sense::spec_invalid_command() }
        }
    }
}

/// MODE SENSE(6) answers with a four-byte mode parameter header whose
/// device-specific byte carries the write-protect flag (bit 7) exactly when
/// the medium is write-protected, so the host mounts a locked card
/// read-only; the sense is left as it was.
pub proof fn lemma_mode_sense_reports_write_protect(
    cdb: Seq<u8>,
    data_len: u32,
    dir_in: bool,
    dev: DeviceInfo,
    sense: Sense,
)
    requires
        cdb.len() > 0,
        cdb[0] == 0x1A,
    ensures
        spec_decide(cdb, data_len, dir_in, dev, sense) matches ScsiActionSpec::DataIn { data, sense: s2 }
            && data.len() == 4 && data[0] == 3 && data[1] == 0 && data[3] == 0
            && (data[2] & 0x80 != 0) == dev.write_protected
            && data[2] & 0x7F == 0 && s2 == sense,
{
    assert(0x80u8 & 0x80 != 0 && 0x80u8 & 0x7F == 0 && 0u8 & 0x80 == 0 && 0u8 & 0x7F == 0) by (bit_vector);
}

/// The big-endian value of the four bytes of `d` from `off`.
pub open spec fn be32_at(d: Seq<u8>, off: int) -> int {
    d[off] * 0x100_0000 + d[off + 1] * 0x10000 + d[off + 2] * 0x100 + d[off + 3]
}

proof fn lemma_be_round_trip(x: u32)
    ensures
        be32_at(spec_be_bytes(x), 0) == x,
{
    let b = spec_be_bytes(x);
    assert(b[0] == x / 0x100_0000);
    assert(b[1] == (x / 0x10000) % 0x100);
    assert(b[2] == (x / 0x100) % 0x100);
    assert(b[3] == x % 0x100);
    assert(x % 0x100 + ((x / 0x100) % 0x100) * 0x100 + ((x / 0x10000) % 0x100) * 0x10000
        + (x / 0x100_0000) * 0x100_0000 == x) by (nonlinear_arith)
        requires 0 <= x < 0x1_0000_0000;
}

/// What the host is told for the commands it relies on:
/// * TEST UNIT READY on a ready medium passes with nothing transferred;
/// * REQUEST SENSE returns the current sense in fixed format (response code
///   0x70, key at byte 2, ASC/ASCQ at bytes 12 and 13) and clears it;
/// * READ CAPACITY(10) on a ready medium returns the last block address and
///   the 512-byte block length, big-endian;
/// * READ(10)/WRITE(10) address the big-endian LBA of bytes 2–5 and the
///   big-endian block count of bytes 7–8, and a write-protected medium is
///   never written;
/// * an empty command block fails with ILLEGAL REQUEST.
pub proof fn lemma_decide_answers(cdb: Seq<u8>, data_len: u32, dir_in: bool, dev: DeviceInfo, sense: Sense)
    ensures
        ({
            let a = spec_decide(cdb, data_len, dir_in, dev, sense);
            &&& cdb.len() == 0 ==> (a matches ScsiActionSpec::Complete { status, sense: s2, .. }
                && status == CSW_STATUS_FAILED && s2.key == 0x05)
            &&& cdb.len() > 0 && cdb[0] == 0x00 && dev.ready ==> a == (ScsiActionSpec::Complete {
                status: CSW_STATUS_GOOD, residue: data_len, sense: Sense { key: 0, asc: 0, ascq: 0 } })
            &&& cdb.len() > 0 && cdb[0] == 0x03 ==> (a matches ScsiActionSpec::DataIn { data, sense: s2 }
                && data.len() == 18 && data[0] == 0x70 && data[2] == sense.key && data[7] == 10
                && data[12] == sense.asc && data[13] == sense.ascq && s2.key == 0 && s2.asc == 0
                && s2.ascq == 0)
            &&& cdb.len() > 0 && cdb[0] == 0x25 && dev.ready ==> (a matches ScsiActionSpec::DataIn { data, .. }
                && data.len() == 8 && be32_at(data, 0) == (if dev.block_count == 0 { 0 } else {
                dev.block_count - 1 }) && be32_at(data, 4) == 512)
            &&& cdb.len() >= 10 && (cdb[0] == 0x28 || cdb[0] == 0x2A) && !(cdb[0] == 0x2A
                && dev.write_protected) ==> {
                let lba = be32_at(cdb, 2);
                let blocks = cdb[7] * 0x100 + cdb[8];
                &&& cdb[0] == 0x28 ==> a == (ScsiActionSpec::Read { lba: lba as u32, blocks: blocks as u32 })
                &&& cdb[0] == 0x2A ==> a == (ScsiActionSpec::Write { lba: lba as u32, blocks: blocks as u32 })
            }
            &&& cdb.len() > 0 && cdb[0] == 0x2A && dev.write_protected ==> !(a is Write)
                && !(a is Read)
        }),
{
    if cdb.len() > 0 && cdb[0] == 0x25 && dev.ready {
        lemma_be_round_trip(if dev.block_count == 0 { 0u32 } else { (dev.block_count - 1) as u32 });
        lemma_be_round_trip(BLOCK_SIZE);
        let x = if dev.block_count == 0 { 0u32 } else { (dev.block_count - 1) as u32 };
        let d = spec_capacity_data(dev.block_count);
        assert(d == spec_be_bytes(x) + spec_be_bytes(BLOCK_SIZE));
        assert(be32_at(d, 4) == be32_at(spec_be_bytes(BLOCK_SIZE), 0));
        assert(be32_at(d, 0) == be32_at(spec_be_bytes(x), 0));
    }
}

/// Decide one SCSI command.  Unknown opcodes are failed with ILLEGAL REQUEST
/// sense (draining any host data-out phase first).
pub fn decide(cdb: &[u8], data_len: u32, dir_in: bool, dev: &DeviceInfo, sense: Sense) -> (a: ScsiAction)
    ensures
        a@ == spec_decide(cdb@, data_len, dir_in, *dev, sense),
{
    if cdb.len() == 0 {
        return ScsiAction::Complete { status: CSW_STATUS_FAILED, residue: data_len, sense: Sense::invalid_command() };
    }
    let op = cdb[0];
    if op == 0x00 {
        if dev.ready {
            ScsiAction::Complete { status: CSW_STATUS_GOOD, residue: data_len, sense: Sense::good() }
        } else {
            ScsiAction::EnsureReady
        }
    } else if op == 0x03 {
        ScsiAction::DataIn { data: request_sense_data(sense), sense: Sense::good() }
    } else if op == 0x12 {
        ScsiAction::DataIn { data: inquiry_data(&dev.inquiry), sense }
    } else if op == 0x1A {
        ScsiAction::DataIn { data: mode_sense_data(dev.write_protected), sense }
    } else if op == 0x1E || op == 0x1B || op == 0x35 {
        ScsiAction::Complete { status: CSW_STATUS_GOOD, residue: data_len, sense: Sense::good() }
    } else if op == 0x23 {
        ScsiAction::DataIn { data: format_capacities_data(dev.block_count), sense }
    } else if op == 0x25 {
        if dev.ready {
            ScsiAction::DataIn { data: capacity_data(dev.block_count), sense }
        } else {
            ScsiAction::Complete { status: CSW_STATUS_FAILED, residue: data_len, sense: Sense::not_ready() }
        }
    } else if op == 0x28 || op == 0x2A {
        if cdb.len() < 10 {
            return ScsiAction::Complete { status: CSW_STATUS_FAILED, residue: data_len, sense: Sense::invalid_command() };
        }
        if op == 0x2A && dev.write_protected {
            return ScsiAction::DrainAndFail { drain: data_len, status: CSW_STATUS_FAILED, residue: data_len, sense: Sense::data_protect() };
        }
        let lba = cdb[2] as u32 * 0x100_0000 + cdb[3] as u32 * 0x10000 + cdb[4] as u32 * 0x100 + cdb[5] as u32;
        let blocks = cdb[7] as u32 * 0x100 + cdb[8] as u32;
        if op == 0x28 {
            ScsiAction::Read { lba, blocks }
        } else {
            ScsiAction::Write { lba, blocks }
        }
    } else if !dir_in && data_len > 0 {
        ScsiAction::DrainAndFail { drain: data_len, status: CSW_STATUS_FAILED, residue: data_len, sense: Sense::invalid_command() }
    } else {
        ScsiAction::Complete { status: CSW_STATUS_FAILED, residue: data_len, sense: Sense::invalid_command() }
    }
}

/// Status, residue and new sense of TEST UNIT READY after a (re)initialisation
/// attempt that left the medium `ready` or not.
pub fn test_unit_ready_outcome(ready: bool, data_len: u32) -> (r: (u8, u32, Sense))
    ensures
        r == (if ready { (CSW_STATUS_GOOD, data_len, Sense::spec_good()) } else {
            (CSW_STATUS_FAILED, data_len, Sense::spec_not_ready()) }),
{
    if ready {
        (CSW_STATUS_GOOD, data_len, Sense::good())
    } else {
        (CSW_STATUS_FAILED, data_len, Sense::not_ready())
    }
}

/// Size of the next data chunk: at most [`CHUNK_SECTORS`] of `remaining`.
pub open spec fn spec_chunk(remaining: u32) -> u32 {
    if remaining < CHUNK_SECTORS { remaining } else { CHUNK_SECTORS }
}

/// Residue after transferring `done` of `data_len` bytes (saturating).
pub open spec fn spec_residue(data_len: u32, done: u32) -> u32 {
    if done >= data_len { 0 } else { (data_len - done) as u32 }
}

fn chunk_of(remaining: u32) -> (c: u32)
    ensures
        c == spec_chunk(remaining),
{
    if remaining < CHUNK_SECTORS {
        remaining
    } else {
        CHUNK_SECTORS
    }
}

fn residue_of(data_len: u32, done: u32) -> (r: u32)
    ensures
        r == spec_residue(data_len, done),
{
    if done >= data_len {
        0
    } else {
        data_len - done
    }
}

/// The next step of a READ(10) data phase.
#[derive(Clone, Copy, Debug, PartialEq, Eq, Structural)]
pub enum ReadStep {
    /// Read `count` blocks from `lba` into bank `bank` (the priming read).
    Read { lba: u32, count: u32, bank: u8 },
    /// Send `bytes` from bank `send_bank` to the host while reading `count`
    /// blocks from `lba` into the other bank.
    SendAndRead { send_bank: u8, bytes: u32, lba: u32, count: u32 },
    /// Send `bytes` from bank `bank`: the last chunk.
    Send { bank: u8, bytes: u32 },
    /// The phase is over: report `status` and `residue`; the sense becomes
    /// `sense` (or is unchanged for `None`).
    Finish { status: u8, residue: u32, sense: Option<Sense> },
}

/// State of a double-buffered READ(10) data phase.
///
/// One bank streams to the host while the medium fills the other.  A medium
/// error fails the command with MEDIUM ERROR sense; a failed USB write fails it
/// without touching the sense; the residue is the shortfall of bytes sent.
pub struct ReadSession {
    /// Next LBA to read.
    next_lba: u32,
    /// Blocks not yet read.
    remaining: u32,
    /// Blocks held in the current bank.
    cur_chunk: u32,
    /// Bank holding the current chunk (0 or 1).
    cur_bank: u8,
    /// Bytes sent so far.
    sent: u32,
    /// The host's allocation (`dCBWDataTransferLength`).
    data_len: u32,
    /// Whether the priming read has been issued.
    primed: bool,
    /// The final report, once the phase is over.
    finished: Option<(u8, Option<Sense>)>,
    /// The sector ranges read from the medium so far, in order.
    reads: Ghost<Seq<(u32, u32)>>,
    /// The first LBA and the total block count.
    start: Ghost<(u32, u32)>,
    /// The sector range whose bytes each bank (0, 1) holds.
    held: Ghost<Seq<(u32, u32)>>,
    /// The sector ranges sent to the host so far, in order, each from the
    /// bank holding it.
    sends: Ghost<Seq<(u32, u32)>>,
}

/// A [`ReadSession`] as values: its fields, the ghost ones by their
/// contents.
pub ghost struct ReadState {
    pub next_lba: u32,
    pub remaining: u32,
    pub cur_chunk: u32,
    pub cur_bank: u8,
    pub sent: u32,
    pub data_len: u32,
    pub primed: bool,
    pub finished: Option<(u8, Option<Sense>)>,
    pub reads: Seq<(u32, u32)>,
    pub start: (u32, u32),
    pub held: Seq<(u32, u32)>,
    pub sends: Seq<(u32, u32)>,
}

impl View for ReadSession {
    type V = ReadState;

    closed spec fn view(&self) -> ReadState {
        ReadState {
            next_lba: self.next_lba,
            remaining: self.remaining,
            cur_chunk: self.cur_chunk,
            cur_bank: self.cur_bank,
            sent: self.sent,
            data_len: self.data_len,
            primed: self.primed,
            finished: self.finished,
            reads: self.reads@,
            start: self.start@,
            held: self.held@,
            sends: self.sends@,
        }
    }
}

impl ReadSession {
    /// Invariant: the session is consistent with its request.
    pub open spec fn wf(&self) -> bool {
        &&& self@.cur_bank <= 1
        &&& self@.cur_chunk <= CHUNK_SECTORS
        &&& self@.start.1 <= 0xFFFF
        &&& self@.start.0 + self@.start.1 <= u32::MAX
        &&& self@.next_lba + self@.remaining == self@.start.0 + self@.start.1
        &&& self@.sent <= self@.start.1 * BLOCK_SIZE
        &&& spec_sum_counts(self@.reads) + self@.remaining == self@.start.1
        &&& spec_contiguous(self@.reads, self@.start.0)
        &&& (self@.finished is None && self@.primed) ==> (self@.sent as int + self@.cur_chunk * BLOCK_SIZE
            + self@.remaining * BLOCK_SIZE == self@.start.1 * BLOCK_SIZE)
        &&& !self@.primed ==> self@.cur_chunk == spec_chunk(self@.remaining) && self@.sent == 0
            && self@.reads.len() == 0 && self@.sends.len() == 0 && self@.cur_bank == 0
        &&& self@.finished == Some((CSW_STATUS_GOOD, Option::<Sense>::None)) ==> self@.remaining == 0
            && self@.sent == self@.start.1 * BLOCK_SIZE && self@.sends == self@.reads
        &&& self@.held.len() == 2
        &&& (self@.finished is None && self@.primed) ==> {
            &&& self@.reads.len() > 0
            &&& self@.held[self@.cur_bank as int] == self@.reads.last()
            &&& self@.reads.last().1 == self@.cur_chunk
            &&& self@.sends == self@.reads.drop_last()
        }
    }

    /// Start a READ(10) of `blocks` blocks from `lba` with host allocation
    /// `data_len`.
    pub fn new(lba: u32, blocks: u32, data_len: u32) -> (s: ReadSession)
        requires
            blocks <= 0xFFFF,
            lba + blocks <= u32::MAX,
        ensures
            s.wf(),
            s@.start == (lba, blocks),
            s@.data_len == data_len,
            s@.finished is None,
            !s@.primed,
    {
        ReadSession {
            next_lba: lba,
            remaining: blocks,
            cur_chunk: chunk_of(blocks),
            cur_bank: 0,
            sent: 0,
            data_len,
            primed: false,
            finished: None,
            reads: Ghost(Seq::empty()),
            start: Ghost((lba, blocks)),
            held: Ghost(Seq::empty().push((0u32, 0u32)).push((0u32, 0u32))),
            sends: Ghost(Seq::empty()),
        }
    }

    /// What the caller must do next.
    pub fn step(&self) -> (s: ReadStep)
        requires
            self.wf(),
        ensures
            match s {
                ReadStep::Read { lba, count, bank } => !self@.primed && self@.finished is None
                    && lba == self@.next_lba && count == self@.cur_chunk && bank == 0,
                ReadStep::SendAndRead { send_bank, bytes, lba, count } => self@.primed
                    && self@.finished is None && self@.remaining > 0 && send_bank == self@.cur_bank
                    && bytes == self@.cur_chunk * BLOCK_SIZE && lba == self@.next_lba
                    && count == spec_chunk(self@.remaining)
                    && self@.held[send_bank as int] == self@.reads.last(),
                ReadStep::Send { bank, bytes } => self@.primed && self@.finished is None
                    && self@.remaining == 0 && bank == self@.cur_bank
                    && bytes == self@.cur_chunk * BLOCK_SIZE
                    && self@.held[bank as int] == self@.reads.last(),
                ReadStep::Finish { status, residue, sense } => self@.finished == Some((status, sense))
                    && residue == spec_residue(self@.data_len, self@.sent),
            },
    {
        match self.finished {
            Some((status, sense)) => ReadStep::Finish { status, residue: residue_of(self.data_len, self.sent), sense },
            None => {
                if !self.primed {
                    ReadStep::Read { lba: self.next_lba, count: self.cur_chunk, bank: 0 }
                } else if self.remaining > 0 {
                    ReadStep::SendAndRead {
                        send_bank: self.cur_bank,
                        bytes: self.cur_chunk * BLOCK_SIZE,
                        lba: self.next_lba,
                        count: chunk_of(self.remaining),
                    }
                } else {
                    ReadStep::Send { bank: self.cur_bank, bytes: self.cur_chunk * BLOCK_SIZE }
                }
            },
        }
    }

    /// Report the outcome of the priming [`ReadStep::Read`].
    pub fn on_read(&mut self, ok: bool)
        requires
            old(self).wf(),
            !old(self)@.primed,
            old(self)@.finished is None,
        ensures
            final(self).wf(),
            final(self)@.primed,
            final(self)@.start == old(self)@.start,
            final(self)@.data_len == old(self)@.data_len,
            final(self)@.sent == 0,
            ok ==> final(self)@.finished is None && final(self)@.reads == seq![(old(self)@.next_lba,
                old(self)@.cur_chunk)],
            ok ==> final(self)@.cur_bank == old(self)@.cur_bank && final(self)@.held == old(self)@.held.update(
                old(self)@.cur_bank as int,
                (old(self)@.next_lba, old(self)@.cur_chunk),
            ),
            !ok ==> final(self)@.finished == Some((CSW_STATUS_FAILED, Some(Sense::spec_medium_error()))),
    {
        self.primed = true;
        if ok {
            proof {
                self.held@ = self.held@.update(self.cur_bank as int, (self.next_lba, self.cur_chunk));
                self.reads@ = self.reads@.push((self.next_lba, self.cur_chunk));
                assert(self.reads@.drop_last() =~= self.sends@);
                lemma_contiguous_push(old(self).reads@, self.start@.0, self.next_lba, self.cur_chunk);
                lemma_sum_push(old(self).reads@, self.next_lba, self.cur_chunk);
                assert(self.reads@ =~= seq![(old(self).next_lba, old(self).cur_chunk)]);
            }
            self.remaining = self.remaining - self.cur_chunk;
            self.next_lba = self.next_lba + self.cur_chunk;
        } else {
            self.finished = Some((CSW_STATUS_FAILED, Some(Sense::medium_error())));
        }
    }

    /// Report the outcome of a [`ReadStep::SendAndRead`].
    pub fn on_send_and_read(&mut self, send_ok: bool, read_ok: bool)
        requires
            old(self).wf(),
            old(self)@.primed,
            old(self)@.finished is None,
            old(self)@.remaining > 0,
        ensures
            final(self).wf(),
            final(self)@.start == old(self)@.start,
            final(self)@.data_len == old(self)@.data_len,
            final(self)@.primed,
            !send_ok ==> final(self)@.finished == Some((CSW_STATUS_FAILED, Option::<Sense>::None))
                && final(self)@.sent == old(self)@.sent,
            send_ok ==> final(self)@.sent == old(self)@.sent + old(self)@.cur_chunk * BLOCK_SIZE,
            send_ok && !read_ok ==> final(self)@.finished == Some((CSW_STATUS_FAILED, Some(Sense::spec_medium_error()))),
            send_ok && read_ok ==> final(self)@.finished is None && final(self)@.reads == old(self)@.reads.push(
                (old(self)@.next_lba, spec_chunk(old(self)@.remaining))),
            send_ok ==> final(self)@.sends == old(self)@.sends.push(old(self)@.held[old(self)@.cur_bank as int]),
            send_ok && read_ok ==> final(self)@.cur_bank == 1 - old(self)@.cur_bank
                && final(self)@.held == old(self)@.held.update(
                1 - old(self)@.cur_bank,
                (old(self)@.next_lba, spec_chunk(old(self)@.remaining)),
            ),
    {
        if !send_ok {
            self.finished = Some((CSW_STATUS_FAILED, None));
            return;
        }
        proof {
            self.sends@ = self.sends@.push(self.held@[self.cur_bank as int]);
            assert(self.sends@ =~= self.reads@);
        }
        self.sent = self.sent + self.cur_chunk * BLOCK_SIZE;
        if !read_ok {
            self.finished = Some((CSW_STATUS_FAILED, Some(Sense::medium_error())));
            return;
        }
        let next = chunk_of(self.remaining);
        proof {
            self.held@ = self.held@.update(1 - self.cur_bank, (self.next_lba, next));
            self.reads@ = self.reads@.push((self.next_lba, next));
            assert(self.reads@.drop_last() =~= self.sends@);
            lemma_contiguous_push(old(self).reads@, self.start@.0, self.next_lba, next);
            lemma_sum_push(old(self).reads@, self.next_lba, next);
        }
        self.cur_chunk = next;
        self.next_lba = self.next_lba + next;
        self.remaining = self.remaining - next;
        self.cur_bank = 1 - self.cur_bank;
    }

    /// Report the outcome of the final [`ReadStep::Send`].
    pub fn on_send(&mut self, send_ok: bool)
        requires
            old(self).wf(),
            old(self)@.primed,
            old(self)@.finished is None,
            old(self)@.remaining == 0,
        ensures
            final(self).wf(),
            final(self)@.start == old(self)@.start,
            final(self)@.data_len == old(self)@.data_len,
            final(self)@.reads == old(self)@.reads,
            send_ok ==> final(self)@.finished == Some((CSW_STATUS_GOOD, Option::<Sense>::None))
                && final(self)@.sent == old(self)@.sent + old(self)@.cur_chunk * BLOCK_SIZE,
            send_ok ==> final(self)@.sends == old(self)@.sends.push(old(self)@.held[old(self)@.cur_bank as int]),
            !send_ok ==> final(self)@.finished == Some((CSW_STATUS_FAILED, Option::<Sense>::None))
                && final(self)@.sent == old(self)@.sent,
    {
        if send_ok {
            proof {
                self.sends@ = self.sends@.push(self.held@[self.cur_bank as int]);
                assert(self.sends@ =~= self.reads@);
            }
            self.sent = self.sent + self.cur_chunk * BLOCK_SIZE;
            self.finished = Some((CSW_STATUS_GOOD, None));
        } else {
            self.finished = Some((CSW_STATUS_FAILED, None));
        }
    }
}

/// Sum of the block counts of a list of sector ranges.
pub open spec fn spec_sum_counts(rs: Seq<(u32, u32)>) -> int
    decreases rs.len(),
{
    if rs.len() == 0 { 0 } else { spec_sum_counts(rs.drop_last()) + rs.last().1 }
}

/// The ranges start at `lba` and each begins where the previous one ended.
pub open spec fn spec_contiguous(rs: Seq<(u32, u32)>, lba: u32) -> bool
    decreases rs.len(),
{
    if rs.len() == 0 {
        true
    } else {
        spec_contiguous(rs.drop_last(), lba) && rs.last().0 == lba + spec_sum_counts(rs.drop_last())
            && rs.last().1 <= CHUNK_SECTORS
    }
}

pub proof fn lemma_sum_push(rs: Seq<(u32, u32)>, l: u32, c: u32)
    ensures
        spec_sum_counts(rs.push((l, c))) == spec_sum_counts(rs) + c,
{
    assert(rs.push((l, c)).drop_last() =~= rs);
}

pub proof fn lemma_contiguous_push(rs: Seq<(u32, u32)>, lba: u32, l: u32, c: u32)
    requires
        spec_contiguous(rs, lba),
        l == lba + spec_sum_counts(rs),
        c <= CHUNK_SECTORS,
    ensures
        spec_contiguous(rs.push((l, c)), lba),
{
    assert(rs.push((l, c)).drop_last() =~= rs);
}

/// A READ(10) phase that finishes with GOOD status has read exactly the
/// requested blocks from the medium, as contiguous chunks of at most 64 blocks
/// starting at the requested LBA, and has sent every byte of them to the host:
/// the host got exactly those chunks, in that order, each from the bank it
/// was read into.
pub proof fn lemma_good_read_is_complete(s: ReadSession)
    requires
        s.wf(),
        s@.finished == Some((CSW_STATUS_GOOD, Option::<Sense>::None)),
    ensures
        spec_sum_counts(s@.reads) == s@.start.1,
        spec_contiguous(s@.reads, s@.start.0),
        s@.sent == s@.start.1 * BLOCK_SIZE,
        s@.sends == s@.reads,
{
}

/// The next step of a WRITE(10) data phase.
#[derive(Clone, Copy, Debug, PartialEq, Eq, Structural)]
pub enum WriteStep {
    /// Receive `bytes` from the host into bank `bank` (the priming receive).
    Receive { bank: u8, bytes: u32 },
    /// Write `count` blocks at `lba` from bank `write_bank` while receiving
    /// `bytes` from the host into the other bank.
    WriteAndReceive { write_bank: u8, lba: u32, count: u32, bytes: u32 },
    /// Write the last `count` blocks at `lba` from bank `bank`.
    Write { bank: u8, lba: u32, count: u32 },
    /// The phase is over.
    Finish { status: u8, residue: u32, sense: Option<Sense> },
}

/// State of a double-buffered WRITE(10) data phase.
///
/// One bank is committed to the medium while the host fills the other.  A
/// medium error fails the command with MEDIUM ERROR sense; a failed or short
/// USB receive fails it without touching the sense; the residue is the
/// shortfall of bytes received.
pub struct WriteSession {
    /// LBA the current bank is written to.
    write_lba: u32,
    /// Blocks not yet received.
    remaining: u32,
    /// Blocks held in the current bank.
    cur_chunk: u32,
    /// Bank holding the current chunk (0 or 1).
    cur_bank: u8,
    /// Bytes received so far.
    recvd: u32,
    /// The host's allocation.
    data_len: u32,
    /// Whether the priming receive has been issued.
    primed: bool,
    /// The final report, once the phase is over.
    finished: Option<(u8, Option<Sense>)>,
    /// The sector ranges committed to the medium so far, in order.
    writes: Ghost<Seq<(u32, u32)>>,
    /// The first LBA and the total block count.
    start: Ghost<(u32, u32)>,
    /// The sector range whose bytes each bank (0, 1) holds, as received
    /// from the host.
    held: Ghost<Seq<(u32, u32)>>,
    /// The sector ranges whose bytes were received from the host so far, in
    /// order.
    recvs: Ghost<Seq<(u32, u32)>>,
}

/// A [`WriteSession`] as values: its fields, the ghost ones by their
/// contents.
pub ghost struct WriteState {
    pub write_lba: u32,
    pub remaining: u32,
    pub cur_chunk: u32,
    pub cur_bank: u8,
    pub recvd: u32,
    pub data_len: u32,
    pub primed: bool,
    pub finished: Option<(u8, Option<Sense>)>,
    pub writes: Seq<(u32, u32)>,
    pub start: (u32, u32),
    pub held: Seq<(u32, u32)>,
    pub recvs: Seq<(u32, u32)>,
}

impl View for WriteSession {
    type V = WriteState;

    closed spec fn view(&self) -> WriteState {
        WriteState {
            write_lba: self.write_lba,
            remaining: self.remaining,
            cur_chunk: self.cur_chunk,
            cur_bank: self.cur_bank,
            recvd: self.recvd,
            data_len: self.data_len,
            primed: self.primed,
            finished: self.finished,
            writes: self.writes@,
            start: self.start@,
            held: self.held@,
            recvs: self.recvs@,
        }
    }
}

impl WriteSession {
    /// Invariant: the session is consistent with its request.
    pub open spec fn wf(&self) -> bool {
        &&& self@.cur_bank <= 1
        &&& self@.cur_chunk <= CHUNK_SECTORS
        &&& self@.start.1 <= 0xFFFF
        &&& self@.start.0 + self@.start.1 <= u32::MAX
        &&& self@.recvd <= self@.start.1 * BLOCK_SIZE
        &&& spec_contiguous(self@.writes, self@.start.0)
        &&& self@.write_lba == self@.start.0 + spec_sum_counts(self@.writes)
        &&& (self@.finished is None && self@.primed) ==> {
            &&& spec_sum_counts(self@.writes) + self@.cur_chunk + self@.remaining == self@.start.1
            &&& self@.recvd == (spec_sum_counts(self@.writes) + self@.cur_chunk) * BLOCK_SIZE
        }
        &&& self@.held.len() == 2
        &&& (self@.finished is None && self@.primed) ==> {
            &&& self@.held[self@.cur_bank as int] == (self@.write_lba, self@.cur_chunk)
            &&& self@.recvs == self@.writes.push((self@.write_lba, self@.cur_chunk))
        }
        &&& self@.finished == Some((CSW_STATUS_GOOD, Option::<Sense>::None)) ==> self@.recvs == self@.writes
        &&& !self@.primed ==> self@.cur_chunk == spec_chunk(self@.remaining) && self@.recvd == 0
            && self@.writes.len() == 0 && self@.remaining == self@.start.1
            && self@.recvs.len() == 0 && self@.cur_bank == 0
        &&& self@.finished == Some((CSW_STATUS_GOOD, Option::<Sense>::None)) ==> spec_sum_counts(self@.writes)
            == self@.start.1 && self@.recvd == self@.start.1 * BLOCK_SIZE
    }

    /// Start a WRITE(10) of `blocks` blocks to `lba` with host allocation
    /// `data_len`.
    pub fn new(lba: u32, blocks: u32, data_len: u32) -> (s: WriteSession)
        requires
            blocks <= 0xFFFF,
            lba + blocks <= u32::MAX,
        ensures
            s.wf(),
            s@.start == (lba, blocks),
            s@.data_len == data_len,
            s@.finished is None,
            !s@.primed,
    {
        WriteSession {
            write_lba: lba,
            remaining: blocks,
            cur_chunk: chunk_of(blocks),
            cur_bank: 0,
            recvd: 0,
            data_len,
            primed: false,
            finished: None,
            writes: Ghost(Seq::empty()),
            start: Ghost((lba, blocks)),
            held: Ghost(Seq::empty().push((0u32, 0u32)).push((0u32, 0u32))),
            recvs: Ghost(Seq::empty()),
        }
    }

    /// What the caller must do next.
    pub fn step(&self) -> (s: WriteStep)
        requires
            self.wf(),
        ensures
            match s {
                WriteStep::Receive { bank, bytes } => !self@.primed && self@.finished is None && bank == 0
                    && bytes == self@.cur_chunk * BLOCK_SIZE,
                WriteStep::WriteAndReceive { write_bank, lba, count, bytes } => self@.primed
                    && self@.finished is None && self@.remaining > 0 && write_bank == self@.cur_bank
                    && lba == self@.write_lba && count == self@.cur_chunk
                    && bytes == spec_chunk(self@.remaining) * BLOCK_SIZE
                    && self@.held[write_bank as int] == (lba, count),
                WriteStep::Write { bank, lba, count } => self@.primed && self@.finished is None
                    && self@.remaining == 0 && bank == self@.cur_bank && lba == self@.write_lba
                    && count == self@.cur_chunk && self@.held[bank as int] == (lba, count),
                WriteStep::Finish { status, residue, sense } => self@.finished == Some((status, sense))
                    && residue == spec_residue(self@.data_len, self@.recvd),
            },
    {
        match self.finished {
            Some((status, sense)) => WriteStep::Finish { status, residue: residue_of(self.data_len, self.recvd), sense },
            None => {
                if !self.primed {
                    WriteStep::Receive { bank: 0, bytes: self.cur_chunk * BLOCK_SIZE }
                } else if self.remaining > 0 {
                    WriteStep::WriteAndReceive {
                        write_bank: self.cur_bank,
                        lba: self.write_lba,
                        count: self.cur_chunk,
                        bytes: chunk_of(self.remaining) * BLOCK_SIZE,
                    }
                } else {
                    WriteStep::Write { bank: self.cur_bank, lba: self.write_lba, count: self.cur_chunk }
                }
            },
        }
    }

    /// Report the priming receive: `got` bytes, or `None` for a USB error.
    pub fn on_receive(&mut self, got: Option<usize>)
        requires
            old(self).wf(),
            !old(self)@.primed,
            old(self)@.finished is None,
        ensures
            final(self).wf(),
            final(self)@.primed,
            final(self)@.start == old(self)@.start,
            final(self)@.data_len == old(self)@.data_len,
            final(self)@.writes == old(self)@.writes,
            got == Some((old(self)@.cur_chunk * BLOCK_SIZE) as usize) ==> final(self)@.finished is None
                && final(self)@.recvd == old(self)@.cur_chunk * BLOCK_SIZE,
            got == Some((old(self)@.cur_chunk * BLOCK_SIZE) as usize) ==> final(self)@.cur_bank == old(self)@.cur_bank
                && final(self)@.held == old(self)@.held.update(
                old(self)@.cur_bank as int,
                (old(self)@.write_lba, old(self)@.cur_chunk),
            ) && final(self)@.recvs == seq![(old(self)@.write_lba, old(self)@.cur_chunk)],
            got != Some((old(self)@.cur_chunk * BLOCK_SIZE) as usize) ==> final(self)@.finished == Some(
                (CSW_STATUS_FAILED, Option::<Sense>::None)) && final(self)@.recvd == 0,
    {
        self.primed = true;
        let cb = self.cur_chunk * BLOCK_SIZE;
        match got {
            Some(g) if g == cb as usize => {
                proof {
                    self.held@ = self.held@.update(self.cur_bank as int, (self.write_lba, self.cur_chunk));
                    self.recvs@ = self.recvs@.push((self.write_lba, self.cur_chunk));
                    assert(self.recvs@ =~= self.writes@.push((self.write_lba, self.cur_chunk)));
                    assert(self.recvs@ =~= seq![(self.write_lba, self.cur_chunk)]);
                }
                self.recvd = cb;
                self.remaining = self.remaining - self.cur_chunk;
            },
            _ => {
                self.finished = Some((CSW_STATUS_FAILED, None));
            },
        }
    }

    /// Report a [`WriteStep::WriteAndReceive`]: whether the medium write
    /// succeeded and what the concurrent receive returned.
    pub fn on_write_and_receive(&mut self, write_ok: bool, got: Option<usize>)
        requires
            old(self).wf(),
            old(self)@.primed,
            old(self)@.finished is None,
            old(self)@.remaining > 0,
        ensures
            final(self).wf(),
            final(self)@.start == old(self)@.start,
            final(self)@.data_len == old(self)@.data_len,
            !write_ok ==> final(self)@.finished == Some((CSW_STATUS_FAILED, Some(Sense::spec_medium_error())))
                && final(self)@.recvd == old(self)@.recvd,
            write_ok ==> final(self)@.writes == old(self)@.writes.push((old(self)@.write_lba, old(self)@.cur_chunk)),
            write_ok ==> final(self)@.writes == old(self)@.writes.push(old(self)@.held[old(self)@.cur_bank as int]),
            write_ok && got == Some((spec_chunk(old(self)@.remaining) * BLOCK_SIZE) as usize) ==> final(self)@.finished is None
                && final(self)@.recvd == old(self)@.recvd + spec_chunk(old(self)@.remaining) * BLOCK_SIZE,
            write_ok && got == Some((spec_chunk(old(self)@.remaining) * BLOCK_SIZE) as usize) ==> ({
                let r = ((old(self)@.write_lba + old(self)@.cur_chunk) as u32, spec_chunk(old(self)@.remaining));
                &&& final(self)@.cur_bank == 1 - old(self)@.cur_bank
                &&& final(self)@.held == old(self)@.held.update(1 - old(self)@.cur_bank, r)
                &&& final(self)@.recvs == old(self)@.recvs.push(r)
            }),
            write_ok && got != Some((spec_chunk(old(self)@.remaining) * BLOCK_SIZE) as usize) ==> final(self)@.finished
                == Some((CSW_STATUS_FAILED, Option::<Sense>::None)) && final(self)@.recvd == old(self)@.recvd,
    {
        if !write_ok {
            self.finished = Some((CSW_STATUS_FAILED, Some(Sense::medium_error())));
            return;
        }
        proof {
            self.writes@ = self.writes@.push((self.write_lba, self.cur_chunk));
            lemma_contiguous_push(old(self).writes@, self.start@.0, self.write_lba, self.cur_chunk);
            lemma_sum_push(old(self).writes@, self.write_lba, self.cur_chunk);
        }
        self.write_lba = self.write_lba + self.cur_chunk;
        let next = chunk_of(self.remaining);
        let nb = next * BLOCK_SIZE;
        match got {
            Some(g) if g == nb as usize => {
                proof {
                    self.held@ = self.held@.update(1 - self.cur_bank, (self.write_lba, next));
                    self.recvs@ = self.recvs@.push((self.write_lba, next));
                    assert(self.recvs@ =~= self.writes@.push((self.write_lba, next)));
                }
                self.recvd = self.recvd + nb;
                self.cur_chunk = next;
                self.remaining = self.remaining - next;
                self.cur_bank = 1 - self.cur_bank;
            },
            _ => {
                self.finished = Some((CSW_STATUS_FAILED, None));
            },
        }
    }

    /// Report the final [`WriteStep::Write`].
    pub fn on_write(&mut self, write_ok: bool)
        requires
            old(self).wf(),
            old(self)@.primed,
            old(self)@.finished is None,
            old(self)@.remaining == 0,
        ensures
            final(self).wf(),
            final(self)@.start == old(self)@.start,
            final(self)@.data_len == old(self)@.data_len,
            final(self)@.recvd == old(self)@.recvd,
            write_ok ==> final(self)@.finished == Some((CSW_STATUS_GOOD, Option::<Sense>::None))
                && final(self)@.writes == old(self)@.writes.push((old(self)@.write_lba, old(self)@.cur_chunk))
                && final(self)@.writes == old(self)@.writes.push(old(self)@.held[old(self)@.cur_bank as int]),
            !write_ok ==> final(self)@.finished == Some((CSW_STATUS_FAILED, Some(Sense::spec_medium_error()))),
    {
        if write_ok {
            proof {
                self.writes@ = self.writes@.push((self.write_lba, self.cur_chunk));
                lemma_contiguous_push(old(self).writes@, self.start@.0, self.write_lba, self.cur_chunk);
                lemma_sum_push(old(self).writes@, self.write_lba, self.cur_chunk);
            }
            self.write_lba = self.write_lba + self.cur_chunk;
            self.finished = Some((CSW_STATUS_GOOD, None));
        } else {
            self.finished = Some((CSW_STATUS_FAILED, Some(Sense::medium_error())));
        }
    }
}

/// A WRITE(10) phase that finishes with GOOD status has committed exactly the
/// requested blocks to the medium, as contiguous chunks of at most 64 blocks
/// starting at the requested LBA, having received every byte of them: each
/// range was written from the bank holding the host's bytes for that range,
/// in the order the host sent them.
pub proof fn lemma_good_write_is_complete(s: WriteSession)
    requires
        s.wf(),
        s@.finished == Some((CSW_STATUS_GOOD, Option::<Sense>::None)),
    ensures
        spec_sum_counts(s@.writes) == s@.start.1,
        spec_contiguous(s@.writes, s@.start.0),
        s@.recvd == s@.start.1 * BLOCK_SIZE,
        s@.writes == s@.recvs,
{
}

/// Length of the next read when draining `remaining` bytes of host data.
pub fn drain_chunk(remaining: usize) -> (n: usize)
    ensures
        n == if remaining < BUF_BYTES { remaining } else { BUF_BYTES },
{
    if remaining < BUF_BYTES {
        remaining
    } else {
        BUF_BYTES
    }
}

/// Bytes left to drain after a read returned `got` (`None` for an error):
/// `None` ends the drain (error or zero-length read).
pub fn drain_after(remaining: usize, got: Option<usize>) -> (r: Option<usize>)
    ensures
        r == match got {
            Some(g) if g > 0 => Some((remaining - (if g < remaining { g } else { remaining })) as usize),
            _ => Option::<usize>::None,
        },
{
    match got {
        Some(g) if g > 0 => Some(remaining - if g < remaining { g } else { remaining }),
        _ => None,
    }
}

} // verus!
