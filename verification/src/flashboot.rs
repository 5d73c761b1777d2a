//! Boot from the flash slot: validating the raw image's header metadata and
//! describing the copy of the image into SRAM.
//!
//! The image is a raw binary linked to run from SRAM. Past its eight vector
//! entries it carries `code_start` (+0x20), `code_end` (+0x24),
//! `code_execute` (+0x28) and the `.BootLoad_ValidProgramTest.` signature
//! (+0x2C).
use crate::bytes::{le32, spec_le32};
use crate::elf::SramSegDesc;
use crate::uf2::FlashSlot;
use vstd::prelude::*;

verus! {

pub const META_CODE_START: usize = 0x20;
pub const META_CODE_END: usize = 0x24;
pub const META_CODE_EXECUTE: usize = 0x28;
pub const META_SIGNATURE: usize = 0x2C;
/// Length of the signature.
pub const SIGNATURE_LEN: usize = 27;
/// Header bytes the probe reads: up to the end of the signature.
pub const HEADER_LEN: usize = 71;
/// Lowest legal SRAM load address.
pub const SRAM_LOAD_ORIGIN: u32 = 0x2002_0000;
/// One past the top of usable on-chip SRAM.
pub const SRAM_END: u32 = 0x2030_0000;

/// The signature `.BootLoad_ValidProgramTest.`.
pub open spec fn spec_signature() -> Seq<u8> {
    seq![
        0x2eu8, 0x42, 0x6f, 0x6f, 0x74, 0x4c, 0x6f, 0x61, 0x64, 0x5f, 0x56, 0x61, 0x6c, 0x69,
        0x64, 0x50, 0x72, 0x6f, 0x67, 0x72, 0x61, 0x6d, 0x54, 0x65, 0x73, 0x74, 0x2e,
    ]
}

/// The signature `.BootLoad_ValidProgramTest.`.
pub fn signature() -> (s: Vec<u8>)
    ensures
        s@ == spec_signature(),
{
    let s = vec![
        0x2eu8, 0x42, 0x6f, 0x6f, 0x74, 0x4c, 0x6f, 0x61, 0x64, 0x5f, 0x56, 0x61, 0x6c, 0x69,
        0x64, 0x50, 0x72, 0x6f, 0x67, 0x72, 0x61, 0x6d, 0x54, 0x65, 0x73, 0x74, 0x2e,
    ];
    assert(s@ =~= spec_signature());
    s
}

/// A validated image in the flash slot.
#[derive(Clone, Copy, Debug, PartialEq, Eq, Structural)]
pub struct FlashImage {
    /// SRAM load address of image byte 0.
    pub code_start: u32,
    /// One past the last image byte.
    pub code_end: u32,
    /// Entry point.
    pub entry: u32,
}

/// What the slot header `h` describes for a slot of `slot_len` bytes: an
/// image when the signature matches exactly, the load address lies in
/// usable SRAM, the end lies above it and inside SRAM, the image fits the
/// slot, and the entry point lies inside the image.
pub open spec fn spec_probe(h: Seq<u8>, slot_len: u32) -> Option<FlashImage> {
    let cs = spec_le32(h, META_CODE_START as int);
    let ce = spec_le32(h, META_CODE_END as int);
    let ep = spec_le32(h, META_CODE_EXECUTE as int);
    if h.subrange(META_SIGNATURE as int, HEADER_LEN as int) != spec_signature() {
        None
    } else if cs < SRAM_LOAD_ORIGIN || cs >= SRAM_END {
        None
    } else if ce <= cs || ce > SRAM_END {
        None
    } else if ce - cs > slot_len {
        None
    } else if ep < cs || ep >= ce {
        None
    } else {
        Some(FlashImage { code_start: cs as u32, code_end: ce as u32, entry: ep as u32 })
    }
}

/// Inspect the slot's header bytes (`header`, at least [`HEADER_LEN`] of
/// them) and return the image if the slot holds a valid one (see
/// [`spec_probe`]).
pub fn probe(header: &[u8], slot: FlashSlot) -> (img: Option<FlashImage>)
    requires
        header@.len() >= HEADER_LEN,
    ensures
        img == spec_probe(header@, slot.len),
        img matches Some(i) ==> i.code_start < i.code_end && i.code_start <= i.entry < i.code_end,
{
    let sig = signature();
    let mut i: usize = 0;
    while i < SIGNATURE_LEN
        invariant
            i <= SIGNATURE_LEN,
            header@.len() >= HEADER_LEN,
            sig@ == spec_signature(),
            forall|j: int| 0 <= j < i ==> header@[META_SIGNATURE + j] == spec_signature()[j],
        decreases SIGNATURE_LEN - i,
    {
        if header[META_SIGNATURE + i] != sig[i] {
            assert(header@.subrange(META_SIGNATURE as int, HEADER_LEN as int)[i as int]
                != spec_signature()[i as int]);
            return None;
        }
        i += 1;
    }
    assert(header@.subrange(META_SIGNATURE as int, HEADER_LEN as int) =~= spec_signature());
    let code_start = le32(header, META_CODE_START);
    let code_end = le32(header, META_CODE_END);
    let entry = le32(header, META_CODE_EXECUTE);
    if code_start < SRAM_LOAD_ORIGIN || code_start >= SRAM_END {
        return None;
    }
    if code_end <= code_start || code_end > SRAM_END {
        return None;
    }
    if code_end - code_start > slot.len {
        return None;
    }
    if entry < code_start || entry >= code_end {
        return None;
    }
    Some(FlashImage { code_start, code_end, entry })
}

impl FlashImage {
    /// The trampoline descriptor that copies the image from the slot's
    /// memory-mapped window into SRAM (no zero fill).
    pub fn desc(&self, slot: FlashSlot) -> (d: SramSegDesc)
        requires
            slot.wf(),
            self.code_start <= self.code_end,
        ensures
            d == (SramSegDesc {
                src: slot.addr() as u32,
                dst: self.code_start,
                filesz: (self.code_end - self.code_start) as u32,
                zero_extra: 0,
            }),
    {
        SramSegDesc {
            src: crate::uf2::SPI_FLASH_BASE + slot.offset,
            dst: self.code_start,
            filesz: self.code_end - self.code_start,
            zero_extra: 0,
        }
    }
}

} // verus!
